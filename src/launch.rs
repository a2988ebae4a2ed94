use vstd::prelude::*;

use crate::store::{first_named, Connection, ConnectionView, Store};
use crate::text::{decimal, push_decimal};

verus! {

/// The shell command that opens a session to `c`:
/// `ssh -v [-i <key_path> ]<username>@<host> -p <port>`.
pub open spec fn ssh_line(c: ConnectionView) -> Seq<char> {
    let key = match c.key_path {
        Some(k) => "-i "@ + k + " "@,
        None => Seq::empty(),
    };
    "ssh -v "@ + key + c.username + "@"@ + c.host + " -p "@ + decimal(c.port as nat)
}

/// What is shown before a session to `c` starts.
pub open spec fn launch_report(c: ConnectionView) -> Seq<Seq<char>> {
    let lines = seq![
        "Trying to connect to "@ + c.name,
        "SSH Command: "@ + ssh_line(c),
        "Username: "@ + c.username,
        "Host: "@ + c.host,
        "Port: "@ + decimal(c.port as nat),
    ];
    match c.key_path {
        Some(k) => lines.push("Key Path: "@ + k),
        None => lines,
    }
}

/// The message for a name that no profile has.
pub open spec fn not_found_text(name: Seq<char>) -> Seq<char> {
    "No connection found with the name: "@ + name
}

/// The shell command that opens a session to `c`.
pub fn ssh_command(c: &Connection) -> (r: String)
    ensures
        r@ == ssh_line(c@),
{
    let mut s = String::from_str("ssh -v ");
    match &c.key_path {
        Some(k) => {
            s.append("-i ");
            s.append(k.as_str());
            s.append(" ");
        },
        None => {},
    }
    s.append(c.username.as_str());
    s.append("@");
    s.append(c.host.as_str());
    s.append(" -p ");
    push_decimal(&mut s, c.port);
    proof {
        let key = match c@.key_path {
            Some(k) => "-i "@ + k + " "@,
            None => Seq::empty(),
        };
        assert(s@ =~= "ssh -v "@ + key + c@.username + "@"@ + c@.host + " -p "@ + decimal(
            c.port as nat,
        ));
    }
    s
}

fn labelled(label: &str, value: &str) -> (r: String)
    ensures
        r@ == label@ + value@,
{
    let mut s = String::from_str(label);
    s.append(value);
    s
}

/// What `connect` does with a name: launch the first profile of that name, or
/// report that there is none.
pub enum ConnectPlan {
    NotFound { message: String },
    Launch { command: String, report: Vec<String> },
}

/// Decides what connecting to `name` does over the profiles of `store`.
pub fn plan_connect(store: &Store, name: &str) -> (r: ConnectPlan)
    ensures
        match first_named(store@, name@) {
            None => r matches ConnectPlan::NotFound { message } && message@ == not_found_text(
                name@,
            ),
            Some(c) => r matches ConnectPlan::Launch { command, report } && command@ == ssh_line(c)
                && report@.map_values(|l: String| l@) == launch_report(c),
        },
{
    match store.find_by_name(name) {
        None => ConnectPlan::NotFound { message: labelled("No connection found with the name: ", name) },
        Some(c) => {
            let command = ssh_command(c);
            let mut port = String::from_str("Port: ");
            push_decimal(&mut port, c.port);
            let mut report: Vec<String> = Vec::new();
            report.push(labelled("Trying to connect to ", c.name.as_str()));
            report.push(labelled("SSH Command: ", command.as_str()));
            report.push(labelled("Username: ", c.username.as_str()));
            report.push(labelled("Host: ", c.host.as_str()));
            report.push(port);
            match &c.key_path {
                Some(k) => {
                    report.push(labelled("Key Path: ", k.as_str()));
                },
                None => {},
            }
            assert(report@.map_values(|l: String| l@) =~= launch_report(c@));
            ConnectPlan::Launch { command, report }
        },
    }
}

} // verus!
