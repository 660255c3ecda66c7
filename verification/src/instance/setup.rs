//! How a node settles its own kind, remote address, IP and port.
use vstd::prelude::*;
use crate::instance::config::GENESIS_PORT;
use crate::p2p::string_views;
use crate::text::{trim, trim_str};

verus! {

/// What the node knows of itself: its kind (`usb`, `drone`, `car`, `Genesis`, ...)
/// and the address of the device it controls remotely.
#[derive(Clone, Debug)]
pub struct NodeSettings {
    pub node_type: String,
    pub remote_ip: String,
}

/// The node becomes the genesis node: kind and remote address are both `"Genesis"`.
pub fn genesis_node_setup(settings: &mut NodeSettings)
    ensures
        final(settings).node_type@ == "Genesis"@,
        final(settings).remote_ip@ == "Genesis"@,
{
    let input_type = "Genesis";
    let remote_ip = "Genesis";
    settings.node_type = String::from_str(input_type);
    settings.remote_ip = String::from_str(remote_ip);
}

/// No character of `s` is a colon.
pub open spec fn colon_free(s: Seq<char>) -> bool {
    forall|i: int| 0 <= i < s.len() ==> s[i] != ':'
}

/// `k` is the position of the only colon in `line`.
pub open spec fn sole_colon_at(line: Seq<char>, k: int) -> bool {
    &&& 0 <= k < line.len()
    &&& line[k] == ':'
    &&& colon_free(line.subrange(0, k))
    &&& colon_free(line.subrange(k + 1, line.len() as int))
}

/// A settings line `key: value`: with exactly one colon, the trimmed text on each
/// side of it; any other line has no entry.
pub open spec fn config_entry(line: Seq<char>) -> Option<(Seq<char>, Seq<char>)> {
    if exists|k: int| sole_colon_at(line, k) {
        let k = choose|k: int| sole_colon_at(line, k);
        Some((trim(line.subrange(0, k)), trim(line.subrange(k + 1, line.len() as int))))
    } else {
        None
    }
}

/// The settings `(node_type, remote_ip)` after one line: `node_type` and `remote_ip`
/// entries set their field; every other line leaves both.
pub open spec fn apply_line(st: (Seq<char>, Seq<char>), line: Seq<char>) -> (Seq<char>, Seq<char>) {
    match config_entry(line) {
        Some((key, value)) => if key == "node_type"@ {
            (value, st.1)
        } else if key == "remote_ip"@ {
            (st.0, value)
        } else {
            st
        },
        None => st,
    }
}

/// The settings after all lines, in order.
pub open spec fn apply_lines(st: (Seq<char>, Seq<char>), lines: Seq<Seq<char>>) -> (Seq<char>, Seq<char>)
    decreases lines.len(),
{
    if lines.len() == 0 {
        st
    } else {
        apply_line(apply_lines(st, lines.drop_last()), lines.last())
    }
}

proof fn lemma_sole_colon_unique(line: Seq<char>, k: int, j: int)
    requires
        sole_colon_at(line, k),
        sole_colon_at(line, j),
    ensures
        k == j,
{
    if j < k {
        assert(line.subrange(0, k)[j] == line[j]);
    } else if k < j {
        assert(line.subrange(0, j)[k] == line[k]);
    }
}

/// Splits a settings line into its trimmed key and value, where it has exactly one colon.
pub fn parse_config_line(line: &str) -> (res: Option<(String, String)>)
    ensures
        match res {
            Some((k, v)) => config_entry(line@) == Some((k@, v@)),
            None => config_entry(line@) is None,
        },
{
    let n = line.unicode_len();
    let mut k: usize = 0;
    while k < n && line.get_char(k) != ':'
        invariant
            k <= n,
            n == line@.len(),
            forall|i: int| 0 <= i < k ==> line@[i] != ':',
        decreases n - k,
    {
        k = k + 1;
    }
    if k == n {
        proof {
            assert forall|j: int| !sole_colon_at(line@, j) by {
                if 0 <= j < line@.len() {
                    assert(line@[j] != ':');
                }
            }
        }
        return None;
    }
    let mut m: usize = k + 1;
    while m < n && line.get_char(m) != ':'
        invariant
            k < m <= n,
            n == line@.len(),
            forall|i: int| k < i < m ==> line@[i] != ':',
        decreases n - m,
    {
        m = m + 1;
    }
    if m < n {
        proof {
            assert forall|j: int| !sole_colon_at(line@, j) by {
                if sole_colon_at(line@, j) {
                    if j <= k {
                        assert(line@.subrange(j + 1, line@.len() as int)[m - j - 1] == line@[m as int]);
                    } else {
                        assert(line@.subrange(0, j)[k as int] == line@[k as int]);
                    }
                }
            }
        }
        return None;
    }
    proof {
        assert forall|i: int| 0 <= i < k implies #[trigger] line@.subrange(0, k as int)[i] != ':' by {}
        assert forall|i: int| 0 <= i < n - k - 1 implies #[trigger] line@.subrange(k + 1, n as int)[i] != ':' by {
            assert(line@.subrange(k + 1, n as int)[i] == line@[k + 1 + i]);
        }
        assert(sole_colon_at(line@, k as int));
        let c = choose|j: int| sole_colon_at(line@, j);
        lemma_sole_colon_unique(line@, k as int, c);
    }
    let key = trim_str(line.substring_char(0, k));
    let value = trim_str(line.substring_char(k + 1, n));
    Some((key, value))
}

/// Applies the lines of the node's settings file in order: a line `node_type: X`
/// sets the kind, a line `remote_ip: Y` sets the remote address; lines without
/// exactly one colon and other keys are skipped.
pub fn local_node_setup(settings: &mut NodeSettings, lines: &Vec<String>)
    ensures
        (final(settings).node_type@, final(settings).remote_ip@) == apply_lines(
            (old(settings).node_type@, old(settings).remote_ip@),
            string_views(lines@),
        ),
{
    let ghost st0 = (settings.node_type@, settings.remote_ip@);
    let n = lines.len();
    for i in 0..n
        invariant
            n == lines@.len(),
            st0 == (old(settings).node_type@, old(settings).remote_ip@),
            (settings.node_type@, settings.remote_ip@) == apply_lines(
                st0,
                string_views(lines@.take(i as int)),
            ),
    {
        proof {
            assert(string_views(lines@.take(i + 1)).drop_last() =~= string_views(lines@.take(i as int)));
            assert(string_views(lines@.take(i + 1)).last() == lines@[i as int]@);
        }
        match parse_config_line(lines[i].as_str()) {
            Some((key, value)) => {
                if key == String::from_str("node_type") {
                    settings.node_type = value;
                } else if key == String::from_str("remote_ip") {
                    settings.remote_ip = value;
                }
            },
            None => {},
        }
    }
    proof {
        assert(lines@.take(n as int) =~= lines@);
    }
}

/// The IP and port that the node settles on: inside a container (its name is not
/// `"Unknown"`) the container name and port, the network's port where the port is
/// `"Unknown"`; outside a container the current IP and port.
pub fn setup_mode(container_name: String, container_port: String, my_ip: String, my_port: String) -> (res: (
    String,
    String,
))
    ensures
        container_name@ != "Unknown"@ ==> res.0@ == container_name@ && res.1@ == (if container_port@
            == "Unknown"@ {
            GENESIS_PORT@
        } else {
            container_port@
        }),
        container_name@ == "Unknown"@ ==> res.0@ == my_ip@ && res.1@ == my_port@,
{
    if container_name != String::from_str("Unknown") {
        let ip_name = container_name;
        let mut port = container_port;
        if port == String::from_str("Unknown") {
            port = String::from_str(GENESIS_PORT);
        }
        (ip_name, port)
    } else {
        (my_ip, my_port)
    }
}

} // verus!
