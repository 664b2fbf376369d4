//! Where the server listens, where the client connects, and under which username.

use vstd::prelude::*;

use crate::text::{join2, join3, option_view};

verus! {

/// The host where none is given.
pub open spec fn default_host() -> Seq<char> {
    "127.0.0.1"@
}

/// The port where none is given.
pub open spec fn default_port() -> Seq<char> {
    "8080"@
}

/// `given`, or else `default`.
pub open spec fn or_default(given: Option<Seq<char>>, default: Seq<char>) -> Seq<char> {
    match given {
        Some(given) => given,
        None => default,
    }
}

/// `first`, or else `second`.
pub open spec fn either(first: Option<Seq<char>>, second: Option<Seq<char>>) -> Option<Seq<char>> {
    match first {
        Some(_) => first,
        None => second,
    }
}

/// The address that `host` and `port` make.
pub open spec fn address(host: Seq<char>, port: Seq<char>) -> Seq<char> {
    host + ":"@ + port
}

/// The argument in place `i`, if it is there.
pub open spec fn argument(args: Seq<String>, i: int) -> Option<Seq<char>> {
    if 0 <= i < args.len() {
        Some(args[i]@)
    } else {
        None
    }
}

/// The address that the server listens on, from the host and the port of its environment.
pub fn server_address(host: Option<String>, port: Option<String>) -> (listening: String)
    ensures
        listening@ == address(
            or_default(option_view(host), default_host()),
            or_default(option_view(port), default_port()),
        ),
{
    let host = text_or(host, "127.0.0.1");
    let port = text_or(port, "8080");
    join3(host.as_str(), ":", port.as_str())
}

fn text_or(given: Option<String>, default: &str) -> (text: String)
    ensures
        text@ == or_default(option_view(given), default@),
{
    match given {
        Some(text) => text,
        None => default.to_owned(),
    }
}

fn argument_or(args: &Vec<String>, i: usize, other: Option<String>) -> (text: Option<String>)
    ensures
        option_view(text) == either(argument(args@, i as int), option_view(other)),
{
    if i < args.len() {
        Some(args[i].clone())
    } else {
        other
    }
}

/// What the client needs to know to connect.
#[derive(Debug, PartialEq, Eq)]
pub struct ClientConfig {
    /// The server's address.
    pub address: String,
    /// The username to join under.
    pub username: String,
}

/// What the environment says.
#[derive(Debug, PartialEq, Eq)]
pub struct Environment {
    pub host: Option<String>,
    pub port: Option<String>,
    pub username: Option<String>,
}

/// Settles what the client needs to know. The arguments behind the program's name, which are the
/// host, the port and the username, go before the environment, and the environment before the
/// defaults. There is no default for the username: without one, there is no configuration.
pub fn client_config(args: &Vec<String>, environment: Environment) -> (config: Option<ClientConfig>)
    ensures
        match config {
            Some(config) => {
                &&& config.address@ == address(
                    or_default(
                        either(argument(args@, 1), option_view(environment.host)),
                        default_host(),
                    ),
                    or_default(
                        either(argument(args@, 2), option_view(environment.port)),
                        default_port(),
                    ),
                )
                &&& either(argument(args@, 3), option_view(environment.username)) == Some(
                    config.username@,
                )
            },
            None => either(argument(args@, 3), option_view(environment.username)) is None,
        },
{
    let host = text_or(argument_or(args, 1, environment.host), "127.0.0.1");
    let port = text_or(argument_or(args, 2, environment.port), "8080");
    match argument_or(args, 3, environment.username) {
        Some(username) => Some(
            ClientConfig { address: join3(host.as_str(), ":", port.as_str()), username },
        ),
        None => None,
    }
}

/// The line with which the server says where it listens.
pub fn listening_line(address: &str) -> (line: String)
    ensures
        line@ == "Server listening on "@ + address@,
{
    join2("Server listening on ", address)
}

/// The line with which the client says where it connects, and under which username.
pub fn connecting_line(config: &ClientConfig) -> (line: String)
    ensures
        line@ == "Connecting to "@ + config.address@ + " as '"@ + config.username@ + "'..."@,
{
    let to = join3("Connecting to ", config.address.as_str(), " as '");
    join3(to.as_str(), config.username.as_str(), "'...")
}

/// An address is the host, a colon and the port. Where no host is given it is `127.0.0.1`, and
/// where no port is given `8080`; what is given is taken as it is.
pub proof fn address_is_host_and_port(host: Seq<char>, port: Seq<char>)
    ensures
        address(or_default(Some(host), default_host()), or_default(Some(port), default_port()))
            == host + ":"@ + port,
        address(or_default(None, default_host()), or_default(Some(port), default_port()))
            == "127.0.0.1:"@ + port,
        address(or_default(Some(host), default_host()), or_default(None, default_port())) == host
            + ":8080"@,
        address(or_default(None, default_host()), or_default(None, default_port()))
            == "127.0.0.1:8080"@,
{
    reveal_strlit("127.0.0.1");
    reveal_strlit("8080");
    reveal_strlit(":");
    reveal_strlit("127.0.0.1:");
    reveal_strlit(":8080");
    reveal_strlit("127.0.0.1:8080");
    assert("127.0.0.1"@ + ":"@ + port =~= "127.0.0.1:"@ + port);
    assert(host + ":"@ + "8080"@ =~= host + ":8080"@);
    assert("127.0.0.1"@ + ":"@ + "8080"@ =~= "127.0.0.1:8080"@);
}

/// An argument that is there goes before the environment, whatever the environment says; without
/// it, what the environment says is taken.
pub proof fn argument_goes_before_environment(
    args: Seq<String>,
    i: int,
    environment: Option<Seq<char>>,
)
    requires
        0 <= i,
    ensures
        i < args.len() ==> either(argument(args, i), environment) == Some(args[i]@),
        i >= args.len() ==> either(argument(args, i), environment) == environment,
{
}

} // verus!
