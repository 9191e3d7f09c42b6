//! The director's data model and decision rules: requesting a game server
//! for each fetched match and deriving the connection string handed back to
//! the matchmaker.
//!
//! The allocation request and response bodies are modelled as plain data;
//! the embedding process owns their JSON encoding and the orchestrator
//! calls. What is verified here is what the director decides: the fixed
//! request it posts, when an allocation outcome is acceptable, and the
//! exact connection string assigned to a match's tickets.

use vstd::prelude::*;
use vstd::string::StringExecFns;

use crate::errors::{ErrorCode, SessionError};

verus! {

/// The body of a game-server allocation request.
#[derive(Debug)]
pub struct AllocateRequest {
    pub api_version: String,
    pub kind: String,
    pub spec: Spec,
}

/// The specification part of an allocation request.
#[derive(Debug)]
pub struct Spec {
    pub required: Required,
}

/// The selector an allocation must satisfy.
#[derive(Debug)]
pub struct Required {
    pub match_labels: Vec<(String, String)>,
}

/// The body of a game-server allocation response.
#[derive(Debug)]
pub struct AllocateResponse {
    pub kind: String,
    pub api_version: String,
    pub status: Status,
}

/// The outcome of an allocation: the allocated server's state, ports and
/// address.
#[derive(Debug)]
pub struct Status {
    pub state: String,
    pub ports: Option<Vec<Port>>,
    pub address: Option<String>,
}

/// One named port of an allocated game server.
#[derive(Debug)]
pub struct Port {
    pub name: String,
    pub port: i32,
}

/// The fixed allocation request the director posts: one allocation from
/// the game-server fleet.
pub fn allocation_request() -> (r: AllocateRequest)
    ensures
        r.api_version@ == "allocation.agones.dev/v1"@,
        r.kind@ == "GameServerAllocation"@,
        r.spec.required.match_labels@.len() == 1,
        r.spec.required.match_labels@[0].0@ == "agones.dev/fleet"@,
        r.spec.required.match_labels@[0].1@ == "gameserver"@,
{
    let mut labels: Vec<(String, String)> = Vec::new();
    labels.push((String::from_str("agones.dev/fleet"), String::from_str("gameserver")));
    AllocateRequest {
        api_version: String::from_str("allocation.agones.dev/v1"),
        kind: String::from_str("GameServerAllocation"),
        spec: Spec { required: Required { match_labels: labels } },
    }
}

/// The decimal digits of `n`, most significant first.
pub open spec fn decimal_digits(n: nat) -> Seq<char>
    decreases n,
{
    if n < 10 {
        seq![digit_char(n)]
    } else {
        decimal_digits(n / 10).push(digit_char(n % 10))
    }
}

/// The character of one decimal digit.
pub open spec fn digit_char(d: nat) -> char {
    if d == 0 {
        '0'
    } else if d == 1 {
        '1'
    } else if d == 2 {
        '2'
    } else if d == 3 {
        '3'
    } else if d == 4 {
        '4'
    } else if d == 5 {
        '5'
    } else if d == 6 {
        '6'
    } else if d == 7 {
        '7'
    } else if d == 8 {
        '8'
    } else {
        '9'
    }
}

/// The decimal rendering of a signed number: a minus sign before the
/// digits of its magnitude when negative.
pub open spec fn decimal_of_int(n: int) -> Seq<char> {
    if n < 0 {
        seq!['-'] + decimal_digits((-n) as nat)
    } else {
        decimal_digits(n as nat)
    }
}

/// The literal of one decimal digit.
fn digit_str(d: u32) -> (r: &'static str)
    requires
        d < 10,
    ensures
        r@ =~= seq![digit_char(d as nat)],
{
    proof {
        reveal_strlit("0");
        reveal_strlit("1");
        reveal_strlit("2");
        reveal_strlit("3");
        reveal_strlit("4");
        reveal_strlit("5");
        reveal_strlit("6");
        reveal_strlit("7");
        reveal_strlit("8");
        reveal_strlit("9");
    }
    match d {
        0 => "0",
        1 => "1",
        2 => "2",
        3 => "3",
        4 => "4",
        5 => "5",
        6 => "6",
        7 => "7",
        8 => "8",
        _ => "9",
    }
}

/// Appends the decimal digits of `m` to `s`.
fn push_decimal(s: &mut String, m: i64)
    requires
        m >= 0,
    ensures
        final(s)@ == old(s)@ + decimal_digits(m as nat),
    decreases m,
{
    if m >= 10 {
        proof {
            assert(m / 10 < m) by (nonlinear_arith)
                requires
                    m >= 10,
            ;
        }
        push_decimal(s, m / 10);
        let d = (m % 10) as u32;
        s.append(digit_str(d));
        proof {
            assert(decimal_digits(m as nat) =~= decimal_digits((m as nat) / 10).push(
                digit_char((m as nat) % 10),
            ));
            assert((m as nat) / 10 == (m / 10) as nat);
            assert(s@ =~= old(s)@ + decimal_digits(m as nat));
        }
    } else {
        let d = m as u32;
        s.append(digit_str(d));
        proof {
            assert(s@ =~= old(s)@ + decimal_digits(m as nat));
        }
    }
}

/// Renders a number in decimal, as `to_string` would.
pub fn i32_to_decimal(n: i32) -> (r: String)
    ensures
        r@ == decimal_of_int(n as int),
{
    let mut s = String::new();
    if n < 0 {
        s.append("-");
        let m: i64 = -(n as i64);
        push_decimal(&mut s, m);
        proof {
            reveal_strlit("-");
            assert(s@ =~= seq!['-'] + decimal_digits(m as nat));
        }
    } else {
        push_decimal(&mut s, n as i64);
        proof {
            assert(s@ =~= decimal_digits(n as nat));
        }
    }
    s
}

/// Derives the connection string assigned to a fetched match from the
/// allocation outcome: `match_id,host:port`.
///
/// The allocation must have reached the `Allocated` state and must name an
/// address and at least one port; each missing piece is reported with the
/// exact cause, and nothing is assigned then.
pub fn assignment_connection(match_id: &String, status: &Status) -> (r: Result<
    String,
    SessionError,
>)
    ensures
        status.state@ != "Allocated"@ ==> (r matches Err(e) && e.code == ErrorCode::Unavailable
            && e.message@ == "failed to allocate game server: "@ + status.state@),
        status.state@ == "Allocated"@ && status.address is None ==> (r matches Err(e)
            && e.code == ErrorCode::Unavailable && e.message@ == "host is empty"@),
        status.state@ == "Allocated"@ && status.address is Some && (status.ports is None
            || status.ports->Some_0@.len() == 0) ==> (r matches Err(e) && e.code
            == ErrorCode::Unavailable && e.message@ == "port is empty"@),
        status.state@ == "Allocated"@ ==> (status.address matches Some(host)
            ==> (status.ports matches Some(ports) ==> ports@.len() > 0 ==> (r matches Ok(c)
            && c@ == match_id@ + ","@ + host@ + ":"@ + decimal_of_int(ports@[0].port as int)))),
{
    if !(status.state == String::from_str("Allocated")) {
        let mut message = String::from_str("failed to allocate game server: ");
        message.append(status.state.as_str());
        return Err(SessionError::unavailable(message));
    }
    let host = match &status.address {
        Some(host) => host,
        None => {
            return Err(SessionError::unavailable(String::from_str("host is empty")));
        },
    };
    let ports = match &status.ports {
        Some(ports) => ports,
        None => {
            return Err(SessionError::unavailable(String::from_str("port is empty")));
        },
    };
    if ports.len() == 0 {
        return Err(SessionError::unavailable(String::from_str("port is empty")));
    }
    let mut connection = match_id.clone();
    connection.append(",");
    connection.append(host.as_str());
    connection.append(":");
    let port_text = i32_to_decimal(ports[0].port);
    connection.append(port_text.as_str());
    proof {
        reveal_strlit(",");
        reveal_strlit(":");
        assert(connection@ =~= match_id@ + ","@ + host@ + ":"@ + decimal_of_int(
            ports@[0].port as int,
        ));
    }
    Ok(connection)
}

/// What the orchestrator reports of this process's own game server: the
/// plain values the self-allocation decision reads.
#[derive(Debug)]
pub struct GameServerInfo {
    pub state: String,
    pub address: String,
    pub ports: Vec<Port>,
}

/// The self-allocation decision: whether the server must still be moved to
/// the `Allocated` state, and the allocation outcome to report.
#[derive(Debug)]
pub struct SelfAllocation {
    pub needs_allocation: bool,
    pub status: Status,
}

/// Refuses a further match when the process is at its configured capacity.
pub fn check_capacity(num_matches: i32, max_allocate: i32) -> (r: Result<(), SessionError>)
    ensures
        max_allocate <= num_matches <==> (r matches Err(e) && e.code == ErrorCode::Unavailable
            && e.message@ == "gamesever is full"@),
        num_matches < max_allocate <==> r is Ok,
{
    if max_allocate <= num_matches {
        Err(SessionError::unavailable(String::from_str("gamesever is full")))
    } else {
        Ok(())
    }
}

/// Decides a self-allocation from the server's reported state: the server
/// still needs an allocation call exactly when it is not yet `Allocated`,
/// and the reported outcome carries its state, address and first port. A
/// server reporting no port cannot be allocated.
pub fn plan_self_allocation(info: GameServerInfo) -> (r: Result<SelfAllocation, SessionError>)
    ensures
        info.ports@.len() == 0 ==> (r matches Err(e) && e.code == ErrorCode::Unavailable
            && e.message@ == "port is empty"@),
        info.ports@.len() > 0 ==> (r matches Ok(a) && a.needs_allocation == (info.state@
            != "Allocated"@) && a.status.state@ == info.state@ && (a.status.address matches Some(
            ad,
        ) && ad@ == info.address@) && (a.status.ports matches Some(ps) && ps@.len() == 1
            && ps@[0].name@ == info.ports@[0].name@ && ps@[0].port == info.ports@[0].port)),
{
    if info.ports.len() == 0 {
        return Err(SessionError::unavailable(String::from_str("port is empty")));
    }
    let needs_allocation = !(info.state == String::from_str("Allocated"));
    let first = &info.ports[0];
    let mut ports: Vec<Port> = Vec::new();
    ports.push(Port { name: first.name.clone(), port: first.port });
    Ok(
        SelfAllocation {
            needs_allocation,
            status: Status {
                state: info.state,
                ports: Some(ports),
                address: Some(info.address),
            },
        },
    )
}

/// How this process obtains game servers for new matches.
#[derive(Clone, Copy, Debug, PartialEq, Eq, Structural)]
pub enum AllocationMode {
    /// An outside orchestrator allocates a server per match.
    Outside,
    /// The process allocates itself, up to a configured number of matches.
    SelfAllocate,
}

/// Reads an allocation mode from its configured name; anything but
/// `outside` and `self` names no mode.
pub fn parse_allocation_mode(mode: &String) -> (r: Option<AllocationMode>)
    ensures
        mode@ == "outside"@ ==> r == Some(AllocationMode::Outside),
        mode@ == "self"@ ==> r == Some(AllocationMode::SelfAllocate),
        mode@ != "outside"@ && mode@ != "self"@ ==> r is None,
{
    proof {
        reveal_strlit("outside");
        reveal_strlit("self");
        assert("outside"@.len() == 7);
        assert("self"@.len() == 4);
    }
    if *mode == String::from_str("outside") {
        Some(AllocationMode::Outside)
    } else if *mode == String::from_str("self") {
        Some(AllocationMode::SelfAllocate)
    } else {
        None
    }
}

} // verus!
