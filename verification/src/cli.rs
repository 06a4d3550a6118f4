//! Command-line connection requests: how launch-time arguments are read
//! into a telnet connection to open at startup.
//!
//! Arguments may name the connection directly (`--host`, `--port`, with
//! an optional `--name`), or carry a legacy execute string of the form
//! `telnet host port` or `host port`.  A second launch of the program
//! forwards its raw arguments to the first instance, which reads them
//! with the same rules.

use vstd::prelude::*;

use crate::events::host_port_chars;
use crate::text::{
    lower_of,
    lowercase,
    opt_chars,
    parse_u16,
    parse_u16_spec,
    split_whitespace,
    split_ws,
    str_eq,
    str_strip_prefix,
};

verus! {

/// Launch-time arguments, as the embedding's argument parser delivers
/// them.
pub struct Args {
    /// Device name to show in the tab.
    pub name: Option<String>,
    /// Telnet host to connect to.
    pub host: Option<String>,
    /// Telnet port to connect to.
    pub port: Option<u16>,
    /// Legacy execute string: `telnet host port`.
    pub execute: Option<String>,
}

/// A connection request handed to the display surface.
#[derive(Clone)]
pub struct ConnectionArgs {
    /// Display name of the connection.
    pub name: String,
    /// Host to connect to.
    pub host: String,
    /// Port to connect to.
    pub port: u16,
}

/// The display name of a connection: the given name, or `host:port`.
pub open spec fn conn_name(name: Option<Seq<char>>, host: Seq<char>, port: u16) -> Seq<char> {
    match name {
        Some(n) => n,
        None => host_port_chars(host, port),
    }
}

/// The connection an execute string describes: `telnet host port`, or
/// bare `host port`, with the port read as a decimal number.
pub open spec fn exec_command_connection(cmd: Seq<char>, name: Option<Seq<char>>) -> Option<
    (Seq<char>, Seq<char>, u16),
> {
    let parts = split_ws(cmd);
    if parts.len() >= 3 && lower_of(parts[0]) == "telnet"@ {
        match parse_u16_spec(parts[2]) {
            Some(p) => Some((conn_name(name, parts[1], p), parts[1], p)),
            None => None,
        }
    } else if parts.len() >= 2 {
        match parse_u16_spec(parts[1]) {
            Some(p) => Some((conn_name(name, parts[0], p), parts[0], p)),
            None => None,
        }
    } else {
        None
    }
}

/// The connection a full argument set describes: a direct host and port
/// pair first, else whatever the execute string says.
pub open spec fn args_connection(
    name: Option<Seq<char>>,
    host: Option<Seq<char>>,
    port: Option<u16>,
    execute: Option<Seq<char>>,
) -> Option<(Seq<char>, Seq<char>, u16)> {
    if host is Some && port is Some {
        Some((conn_name(name, host->0, port->0), host->0, port->0))
    } else if execute is Some {
        exec_command_connection(execute->0, name)
    } else {
        None
    }
}

fn conn_with_name(name: Option<String>, host: String, port: u16) -> (c: ConnectionArgs)
    ensures
        c.name@ == conn_name(opt_chars(name), host@, port),
        c.host@ == host@,
        c.port == port,
{
    let n = match name {
        Some(n) => n,
        None => crate::events::host_port_string(host.as_str(), port),
    };
    ConnectionArgs { name: n, host, port }
}

impl Args {
    /// Reads a connection request from the arguments: a direct
    /// `--host`/`--port` pair first, else the execute string.
    pub fn parse_connection(&self) -> (r: Option<ConnectionArgs>)
        ensures
            match r {
                Some(c) => args_connection(
                    opt_chars(self.name),
                    opt_chars(self.host),
                    self.port,
                    opt_chars(self.execute),
                ) matches Some(t) && c.name@ == t.0 && c.host@ == t.1 && c.port == t.2,
                None => args_connection(
                    opt_chars(self.name),
                    opt_chars(self.host),
                    self.port,
                    opt_chars(self.execute),
                ) is None,
            },
    {
        let name = match &self.name {
            Some(n) => Some(n.clone()),
            None => None,
        };
        if let (Some(host), Some(port)) = (&self.host, self.port) {
            return Some(conn_with_name(name, host.clone(), port));
        }
        match &self.execute {
            Some(execute) => Self::parse_execute_command(execute.as_str(), name),
            None => None,
        }
    }

    /// Reads a connection request from an execute string of the form
    /// `telnet host port` or `host port`.
    pub fn parse_execute_command(cmd: &str, name: Option<String>) -> (r: Option<ConnectionArgs>)
        ensures
            match r {
                Some(c) => exec_command_connection(cmd@, opt_chars(name)) matches Some(t)
                    && c.name@ == t.0 && c.host@ == t.1 && c.port == t.2,
                None => exec_command_connection(cmd@, opt_chars(name)) is None,
            },
    {
        let parts = split_whitespace(cmd);
        let ghost sparts = split_ws(cmd@);
        proof {
            assert(parts@.map_values(|w: String| w@).len() == sparts.len());
        }
        if parts.len() >= 3 {
            let low = lowercase(parts[0].as_str());
            if str_eq(low.as_str(), "telnet") {
                proof {
                    assert(parts@.map_values(|w: String| w@)[0] == sparts[0]);
                    assert(parts@.map_values(|w: String| w@)[1] == sparts[1]);
                    assert(parts@.map_values(|w: String| w@)[2] == sparts[2]);
                }
                return match parse_u16(parts[2].as_str()) {
                    Some(p) => Some(conn_with_name(name, parts[1].clone(), p)),
                    None => None,
                };
            }
        }
        if parts.len() >= 2 {
            proof {
                assert(parts@.map_values(|w: String| w@)[0] == sparts[0]);
                assert(parts@.map_values(|w: String| w@)[1] == sparts[1]);
            }
            match parse_u16(parts[1].as_str()) {
                Some(p) => Some(conn_with_name(name, parts[0].clone(), p)),
                None => None,
            }
        } else {
            None
        }
    }
}

/// One pass over the raw arguments after the program name, left to
/// right: a recognised flag takes the following argument as its value
/// (or clears the option when nothing follows), a `flag=value` form
/// carries its value inline, and anything else is ignored.
pub open spec fn scan_cli_args(
    args: Seq<Seq<char>>,
    name: Option<Seq<char>>,
    host: Option<Seq<char>>,
    port: Option<u16>,
    execute: Option<Seq<char>>,
) -> (Option<Seq<char>>, Option<Seq<char>>, Option<u16>, Option<Seq<char>>)
    decreases args.len(),
{
    if args.len() == 0 {
        (name, host, port, execute)
    } else {
        let a = args[0];
        if a == "--name"@ || a == "-T"@ || a == "--title"@ {
            if args.len() >= 2 {
                scan_cli_args(args.skip(2), Some(args[1]), host, port, execute)
            } else {
                scan_cli_args(args.skip(1), None, host, port, execute)
            }
        } else if a == "--host"@ {
            if args.len() >= 2 {
                scan_cli_args(args.skip(2), name, Some(args[1]), port, execute)
            } else {
                scan_cli_args(args.skip(1), name, None, port, execute)
            }
        } else if a == "--port"@ || a == "-p"@ {
            if args.len() >= 2 {
                scan_cli_args(args.skip(2), name, host, parse_u16_spec(args[1]), execute)
            } else {
                scan_cli_args(args.skip(1), name, host, None, execute)
            }
        } else if a == "-e"@ || a == "--execute"@ {
            if args.len() >= 2 {
                scan_cli_args(args.skip(2), name, host, port, Some(args[1]))
            } else {
                scan_cli_args(args.skip(1), name, host, port, None)
            }
        } else if "--name="@.is_prefix_of(a) {
            scan_cli_args(args.skip(1), Some(a.skip("--name="@.len() as int)), host, port, execute)
        } else if "--host="@.is_prefix_of(a) {
            scan_cli_args(args.skip(1), name, Some(a.skip("--host="@.len() as int)), port, execute)
        } else if "--port="@.is_prefix_of(a) {
            scan_cli_args(
                args.skip(1),
                name,
                host,
                parse_u16_spec(a.skip("--port="@.len() as int)),
                execute,
            )
        } else {
            scan_cli_args(args.skip(1), name, host, port, execute)
        }
    }
}

/// The connection a raw argument vector describes, program name first.
pub open spec fn cli_connection(args: Seq<Seq<char>>) -> Option<(Seq<char>, Seq<char>, u16)> {
    let rest = if args.len() >= 1 {
        args.skip(1)
    } else {
        args
    };
    let t = scan_cli_args(rest, None, None, None, None);
    args_connection(t.0, t.1, t.2, t.3)
}

/// Reads a connection request from a raw argument vector, as handed over
/// by a second instance of the program: the first argument is the
/// program name, the rest are scanned for the connection flags.
pub fn parse_args_to_connection(args: &[String]) -> (r: Option<ConnectionArgs>)
    ensures
        match r {
            Some(c) => cli_connection(args@.map_values(|s: String| s@)) matches Some(t) && c.name@
                == t.0 && c.host@ == t.1 && c.port == t.2,
            None => cli_connection(args@.map_values(|s: String| s@)) is None,
        },
{
    let ghost av = args@.map_values(|s: String| s@);
    let n = args.len();
    let mut name: Option<String> = None;
    let mut host: Option<String> = None;
    let mut port: Option<u16> = None;
    let mut execute: Option<String> = None;
    let mut i: usize = 1;
    let ghost goal = scan_cli_args(
        if av.len() >= 1 {
            av.skip(1)
        } else {
            av
        },
        None,
        None,
        None,
        None,
    );
    proof {
        if av.len() == 0 {
            assert(av.skip(0) =~= av);
        }
    }
    while i < n
        invariant
            n == args@.len(),
            av == args@.map_values(|s: String| s@),
            1 <= i <= n || (n == 0 && i == 1),
            goal == scan_cli_args(
                av.skip(if i <= n {
                    i as int
                } else {
                    n as int
                }),
                opt_chars(name),
                opt_chars(host),
                port,
                opt_chars(execute),
            ),
        decreases n - i,
    {
        let ghost rest = av.skip(i as int);
        proof {
            assert(rest[0] == av[i as int]);
            assert(av[i as int] == args@[i as int]@);
            assert(rest.skip(1) =~= av.skip(i + 1));
            if i + 1 < n {
                assert(rest.skip(2) =~= av.skip(i + 2));
                assert(rest[1] == av[i + 1]);
                assert(av[i + 1] == args@[i + 1]@);
            }
        }
        let arg = &args[i];
        if str_eq(arg.as_str(), "--name") || str_eq(arg.as_str(), "-T") || str_eq(
            arg.as_str(),
            "--title",
        ) {
            if i + 1 < n {
                name = Some(args[i + 1].clone());
                i = i + 2;
            } else {
                name = None;
                i = i + 1;
            }
        } else if str_eq(arg.as_str(), "--host") {
            if i + 1 < n {
                host = Some(args[i + 1].clone());
                i = i + 2;
            } else {
                host = None;
                i = i + 1;
            }
        } else if str_eq(arg.as_str(), "--port") || str_eq(arg.as_str(), "-p") {
            if i + 1 < n {
                port = parse_u16(args[i + 1].as_str());
                i = i + 2;
            } else {
                port = None;
                i = i + 1;
            }
        } else if str_eq(arg.as_str(), "-e") || str_eq(arg.as_str(), "--execute") {
            if i + 1 < n {
                execute = Some(args[i + 1].clone());
                i = i + 2;
            } else {
                execute = None;
                i = i + 1;
            }
        } else {
            match str_strip_prefix(arg.as_str(), "--name=") {
                Some(val) => {
                    name = Some(val);
                    i = i + 1;
                },
                None => {
                    match str_strip_prefix(arg.as_str(), "--host=") {
                        Some(val) => {
                            host = Some(val);
                            i = i + 1;
                        },
                        None => {
                            match str_strip_prefix(arg.as_str(), "--port=") {
                                Some(val) => {
                                    port = parse_u16(val.as_str());
                                    i = i + 1;
                                },
                                None => {
                                    i = i + 1;
                                },
                            }
                        },
                    }
                },
            }
        }
    }
    proof {
        assert(av.skip(n as int) =~= Seq::<Seq<char>>::empty());
    }
    if let (Some(h), Some(p)) = (&host, port) {
        return Some(conn_with_name(name, h.clone(), p));
    }
    match execute {
        Some(exec_str) => Args::parse_execute_command(exec_str.as_str(), name),
        None => None,
    }
}

} // verus!
