//! How an ngrok tunnel is asked for, and how its address is found in what ngrok prints.

use crate::text::{append_decimal, decimal, law_decimal_reads_back, number_of};
use vstd::prelude::*;
use vstd::string::StringExecFns;

verus! {

/// The program that makes the tunnel.
pub const PROGRAM: &'static str = "ngrok";

/// The line of ngrok's output that tells that the tunnel is there.
#[derive(Debug)]
pub struct TunnelStartedMsg {
    pub addr: String,
    pub url: String,
    pub msg: String,
    pub lvl: String,
}

/// What came of reading a line of ngrok's output.
pub enum NgrokLine {
    /// The line could not be read.
    Failed,
    /// A line; the message, if it is one that tells that the tunnel is there.
    Line(Option<TunnelStartedMsg>),
    /// There are no more lines.
    End,
}

/// What to do after a line.
pub enum NgrokStep {
    /// Read another line.
    ReadOn,
    /// The tunnel is there.
    Started(NgrokHandle),
    /// The output could not be read.
    ReadFailed,
    /// The output has ended without the line that was waited for.
    NoTunnel,
}

/// What to tell the user if there is no tunnel.
pub const NO_TUNNEL: &'static str = "Was unable to parse tunnel URL from ngrok output";

/// The address of an established tunnel.
pub struct NgrokHandle {
    url: String,
}

/// The arguments with which ngrok makes a tunnel to the local port `local_port` and reports on it in
/// JSON on its standard output.
pub open spec fn tunnel_args(local_port: u16) -> Seq<Seq<char>> {
    seq![
        "tcp"@,
        decimal(local_port as nat),
        "--log"@,
        "stdout"@,
        "--log-format"@,
        "json"@,
    ]
}

/// The arguments of the ngrok process.
pub fn args(local_port: u16) -> (r: Vec<String>)
    ensures
        r@.map_values(|s: String| s@) == tunnel_args(local_port),
{
    let mut port = String::new();
    append_decimal(&mut port, local_port);
    let mut args: Vec<String> = Vec::new();
    args.push(String::from_str("tcp"));
    args.push(port);
    args.push(String::from_str("--log"));
    args.push(String::from_str("stdout"));
    args.push(String::from_str("--log-format"));
    args.push(String::from_str("json"));
    assert(args@.map_values(|s: String| s@) =~= tunnel_args(local_port)) by {
        assert(port@ =~= decimal(local_port as nat));
    }
    args
}

/// What a search for the address of a tunnel comes to.
pub ghost enum TunnelSearch {
    /// The tunnel is there, at this address.
    Found(Seq<char>),
    /// The output could not be read.
    ReadFailed,
    /// The output has ended.
    NoTunnel,
}

/// What a line decides, if anything.
pub open spec fn line_decides(line: NgrokLine) -> Option<TunnelSearch> {
    match line {
        NgrokLine::Failed => Some(TunnelSearch::ReadFailed),
        NgrokLine::Line(Some(m)) => Some(TunnelSearch::Found(m.url@)),
        NgrokLine::Line(None) => None,
        NgrokLine::End => Some(TunnelSearch::NoTunnel),
    }
}

/// What lines that are taken one after the other decide, if anything.
pub open spec fn lines_decide(lines: Seq<NgrokLine>) -> Option<TunnelSearch>
    decreases lines.len(),
{
    if lines.len() == 0 {
        None
    } else {
        match line_decides(lines[0]) {
            Some(found) => Some(found),
            None => lines_decide(lines.drop_first()),
        }
    }
}

/// The first line that decides anything decides all, whatever comes after it. So the first message that
/// tells of a tunnel gives the address, if no line before it failed and the output had not ended.
pub proof fn law_first_fitting_line_decides(lines: Seq<NgrokLine>, i: int)
    requires
        0 <= i < lines.len(),
        line_decides(lines[i]) is Some,
        forall|j: int| 0 <= j < i ==> line_decides(#[trigger] lines[j]) is None,
    ensures
        lines_decide(lines) == line_decides(lines[i]),
    decreases lines.len(),
{
    if i > 0 {
        let rest = lines.drop_first();
        assert(line_decides(lines[0]) is None);
        assert forall|j: int| 0 <= j < i - 1 implies line_decides(#[trigger] rest[j]) is None by {
            assert(rest[j] == lines[j + 1]);
        }
        law_first_fitting_line_decides(rest, i - 1);
    }
}

/// Lines of which none decides anything leave the search open.
pub proof fn law_other_lines_decide_nothing(lines: Seq<NgrokLine>)
    requires
        forall|j: int| 0 <= j < lines.len() ==> line_decides(#[trigger] lines[j]) is None,
    ensures
        lines_decide(lines) is None,
    decreases lines.len(),
{
    if lines.len() > 0 {
        let rest = lines.drop_first();
        assert(line_decides(lines[0]) is None);
        assert forall|j: int| 0 <= j < rest.len() implies line_decides(#[trigger] rest[j]) is None by {
            assert(rest[j] == lines[j + 1]);
        }
        law_other_lines_decide_nothing(rest);
    }
}

/// Takes a line: the first message that tells of a tunnel gives its address, any other line is
/// passed over.
pub fn get_tunnel(line: NgrokLine) -> (r: NgrokStep)
    ensures
        match line_decides(line) {
            None => r is ReadOn,
            Some(TunnelSearch::Found(url)) => r matches NgrokStep::Started(h) && h.address() == url,
            Some(TunnelSearch::ReadFailed) => r is ReadFailed,
            Some(TunnelSearch::NoTunnel) => r is NoTunnel,
        },
{
    match line {
        NgrokLine::Failed => NgrokStep::ReadFailed,
        NgrokLine::Line(Some(m)) => NgrokStep::Started(NgrokHandle { url: m.url }),
        NgrokLine::Line(None) => NgrokStep::ReadOn,
        NgrokLine::End => NgrokStep::NoTunnel,
    }
}

impl NgrokHandle {
    /// The address of the tunnel.
    pub closed spec fn address(&self) -> Seq<char> {
        self.url@
    }

    /// The address of the tunnel.
    pub fn get_address(&self) -> (r: &str)
        ensures
            r@ == self.address(),
    {
        self.url.as_str()
    }
}

/// Lines that tell of no tunnel are passed over; the first message that tells of one gives the address
/// that stands in it, whatever else the message says and whatever comes after it.
pub proof fn law_message_gives_the_address(
    lines: Seq<NgrokLine>,
    msg: TunnelStartedMsg,
    rest: Seq<NgrokLine>,
)
    requires
        forall|j: int| 0 <= j < lines.len() ==> #[trigger] lines[j] == NgrokLine::Line(None),
    ensures
        lines_decide(lines) is None,
        lines_decide(lines.push(NgrokLine::Line(Some(msg))) + rest) == Some(
            TunnelSearch::Found(msg.url@),
        ),
        lines_decide(lines.push(NgrokLine::Failed) + rest) == Some(TunnelSearch::ReadFailed),
        lines_decide(lines.push(NgrokLine::End) + rest) == Some(TunnelSearch::NoTunnel),
{
    law_other_lines_decide_nothing(lines);
    let n = lines.len() as int;
    let found = lines.push(NgrokLine::Line(Some(msg))) + rest;
    let failed = lines.push(NgrokLine::Failed) + rest;
    let ended = lines.push(NgrokLine::End) + rest;
    assert(forall|j: int| 0 <= j < n ==> #[trigger] found[j] == lines[j]);
    assert(forall|j: int| 0 <= j < n ==> #[trigger] failed[j] == lines[j]);
    assert(forall|j: int| 0 <= j < n ==> #[trigger] ended[j] == lines[j]);
    law_first_fitting_line_decides(found, n);
    law_first_fitting_line_decides(failed, n);
    law_first_fitting_line_decides(ended, n);
}

/// ngrok is asked for a TCP tunnel to the local port, whichever it is, and for a report in JSON on its
/// standard output.
pub proof fn law_tunnel_leads_to_the_port(local_port: u16)
    ensures
        ({
            let args = tunnel_args(local_port);
            &&& PROGRAM@ == "ngrok"@
            &&& args.len() == 6
            &&& args[0] == "tcp"@
            &&& number_of(args[1]) == local_port
            &&& forall|i: int| 0 <= i < args[1].len() ==> '0' <= #[trigger] args[1][i] <= '9'
            &&& local_port > 0 ==> args[1][0] != '0'
            &&& args[2] == "--log"@ && args[3] == "stdout"@
            &&& args[4] == "--log-format"@ && args[5] == "json"@
        }),
{
    law_decimal_reads_back(local_port as nat);
}

} // verus!
