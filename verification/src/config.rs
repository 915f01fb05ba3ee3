//! The node configuration file: `Key = Value` lines, blank lines and `#`
//! comments.

use vstd::prelude::*;
use crate::text::{concat, lines_of, split_at_first, split_once, text_lines, trim, trimmed};

verus! {

/// The settings a configuration file gives.
#[derive(Debug, Clone)]
pub struct NodeConfig {
    pub node_address: String,
    pub status: String,
    pub region: String,
    pub id: String,
    pub anchor_address: String,
}

/// The settings as text.
pub struct Settings {
    pub node_address: Seq<char>,
    pub status: Seq<char>,
    pub region: Seq<char>,
    pub id: Seq<char>,
    pub anchor_address: Seq<char>,
}

pub open spec fn empty_settings() -> Settings {
    Settings {
        node_address: Seq::empty(),
        status: Seq::empty(),
        region: Seq::empty(),
        id: Seq::empty(),
        anchor_address: Seq::empty(),
    }
}

/// A line that is blank or a comment once trimmed.
pub open spec fn is_skipped(line: Seq<char>) -> bool {
    let t = trimmed(line);
    t.len() == 0 || t[0] == '#'
}

/// The settings after one `key = value` line.
pub open spec fn set_key(acc: Settings, key: Seq<char>, value: Seq<char>) -> Settings {
    let k = trimmed(key);
    let v = trimmed(value);
    if k == "NodeAddress"@ {
        Settings { node_address: v, ..acc }
    } else if k == "Status"@ {
        Settings { status: v, ..acc }
    } else if k == "Region"@ {
        Settings { region: v, ..acc }
    } else if k == "ID"@ {
        Settings { id: v, ..acc }
    } else if k == "AnchorAddress"@ {
        Settings { anchor_address: v, ..acc }
    } else {
        acc
    }
}

/// Reads `lines` from index `i` on into `acc`: the settings, or the first
/// line (trimmed) that is neither skipped nor a `key = value` pair.
pub open spec fn read_settings(lines: Seq<Seq<char>>, i: int, acc: Settings) -> Result<
    Settings,
    Seq<char>,
>
    decreases lines.len() - i,
{
    if i < 0 || i >= lines.len() {
        Ok(acc)
    } else if is_skipped(lines[i]) {
        read_settings(lines, i + 1, acc)
    } else {
        match split_at_first(trimmed(lines[i]), '=') {
            None => Err(trimmed(lines[i])),
            Some((k, v)) => read_settings(lines, i + 1, set_key(acc, k, v)),
        }
    }
}

/// A configuration file's lines, read from the top.
pub open spec fn parse_settings(content: Seq<char>) -> Result<Settings, Seq<char>> {
    read_settings(text_lines(content), 0, empty_settings())
}

/// Reading from index `k + 1` of `lines` with a line inserted at `i <= k`
/// is reading from index `k` of `lines`.
proof fn lemma_read_after_insert(lines: Seq<Seq<char>>, i: int, l: Seq<char>, k: int, acc: Settings)
    requires
        0 <= i <= k,
        i <= lines.len(),
    ensures
        read_settings(lines.insert(i, l), k + 1, acc) == read_settings(lines, k, acc),
    decreases lines.len() - k,
{
    if k < lines.len() {
        assert(lines.insert(i, l)[k + 1] == lines[k]);
        let line = lines[k];
        if is_skipped(line) {
            lemma_read_after_insert(lines, i, l, k + 1, acc);
        } else {
            match split_at_first(trimmed(line), '=') {
                None => {},
                Some((key, v)) => {
                    lemma_read_after_insert(lines, i, l, k + 1, set_key(acc, key, v));
                },
            }
        }
    }
}

proof fn lemma_read_with_skipped(lines: Seq<Seq<char>>, i: int, l: Seq<char>, j: int, acc: Settings)
    requires
        0 <= j <= i <= lines.len(),
        is_skipped(l),
    ensures
        read_settings(lines.insert(i, l), j, acc) == read_settings(lines, j, acc),
    decreases i - j,
{
    let ins = lines.insert(i, l);
    if j == i {
        lemma_read_after_insert(lines, i, l, i, acc);
    } else {
        assert(ins[j] == lines[j]);
        let line = lines[j];
        if is_skipped(line) {
            lemma_read_with_skipped(lines, i, l, j + 1, acc);
        } else {
            match split_at_first(trimmed(line), '=') {
                None => {},
                Some((key, v)) => {
                    lemma_read_with_skipped(lines, i, l, j + 1, set_key(acc, key, v));
                },
            }
        }
    }
}

/// Blank lines and `#` comments change nothing: a configuration with such
/// a line added anywhere reads as it did without it.
pub proof fn law_skipped_lines_change_nothing(lines: Seq<Seq<char>>, i: int, l: Seq<char>)
    requires
        0 <= i <= lines.len(),
        is_skipped(l),
    ensures
        read_settings(lines.insert(i, l), 0, empty_settings()) == read_settings(
            lines,
            0,
            empty_settings(),
        ),
{
    lemma_read_with_skipped(lines, i, l, 0, empty_settings());
}

/// The last setting of a key wins: a second line for the same key replaces
/// what the first one set.
pub proof fn law_last_setting_wins(acc: Settings, k1: Seq<char>, v1: Seq<char>, k2: Seq<char>, v2: Seq<char>)
    requires
        trimmed(k1) == trimmed(k2),
    ensures
        set_key(set_key(acc, k1, v1), k2, v2) == set_key(acc, k2, v2),
{
}

/// What `read_config` finds.
enum ConfigError {
    /// A line that is not `key = value`, trimmed.
    BadLine(String),
    /// No `ID` was given.
    MissingId,
}

pub open spec fn same_settings(c: &NodeConfig, s: Settings) -> bool {
    &&& c.node_address@ == s.node_address
    &&& c.status@ == s.status
    &&& c.region@ == s.region
    &&& c.id@ == s.id
    &&& c.anchor_address@ == s.anchor_address
}

fn read_config(content: &str) -> (r: Result<NodeConfig, ConfigError>)
    ensures
        match parse_settings(content@) {
            Err(line) => r matches Err(ConfigError::BadLine(l)) && l@ == line,
            Ok(s) => if s.id.len() == 0 {
                r matches Err(ConfigError::MissingId)
            } else {
                r matches Ok(c) && same_settings(&c, s)
            },
        },
{
    let lines = lines_of(content);
    let ghost ls = text_lines(content@);
    assert(lines@.len() == ls.len() && forall|j: int| 0 <= j < ls.len() ==> #[trigger] ls[j] == lines@[j]@) by {
        assert(lines@.map_values(|l: String| l@).len() == lines@.len());
        assert forall|j: int| 0 <= j < ls.len() implies #[trigger] ls[j] == lines@[j]@ by {
            assert(lines@.map_values(|l: String| l@)[j] == lines@[j]@);
        }
    }
    let mut node_address = String::new();
    let mut status = String::new();
    let mut region = String::new();
    let mut id = String::new();
    let mut anchor_address = String::new();
    let mut i: usize = 0;
    while i < lines.len()
        invariant
            i <= lines@.len(),
            ls == text_lines(content@),
            lines@.len() == ls.len(),
            forall|j: int| 0 <= j < ls.len() ==> #[trigger] ls[j] == lines@[j]@,
            read_settings(ls, 0, empty_settings()) == read_settings(
                ls,
                i as int,
                Settings {
                    node_address: node_address@,
                    status: status@,
                    region: region@,
                    id: id@,
                    anchor_address: anchor_address@,
                },
            ),
        decreases lines@.len() - i,
    {
        let ghost acc = Settings {
            node_address: node_address@,
            status: status@,
            region: region@,
            id: id@,
            anchor_address: anchor_address@,
        };
        let line = trim(lines[i].as_str());
        assert(ls[i as int] == lines@[i as int]@);
        if line.as_str().is_empty() || line.as_str().get_char(0) == '#' {
            i = i + 1;
            continue;
        }
        let (key, value) = match split_once(line.as_str(), '=') {
            Some(kv) => kv,
            None => {
                assert(!is_skipped(ls[i as int]));
                assert(line@ == trimmed(ls[i as int]));
                assert(read_settings(ls, i as int, acc) == Err::<Settings, Seq<char>>(line@));
                return Err(ConfigError::BadLine(line));
            },
        };
        let k = trim(key.as_str());
        let v = trim(value.as_str());
        if k == String::from_str("NodeAddress") {
            node_address = v;
        } else if k == String::from_str("Status") {
            status = v;
        } else if k == String::from_str("Region") {
            region = v;
        } else if k == String::from_str("ID") {
            id = v;
        } else if k == String::from_str("AnchorAddress") {
            anchor_address = v;
        }
        i = i + 1;
    }
    if id.as_str().is_empty() {
        return Err(ConfigError::MissingId);
    }
    Ok(NodeConfig { node_address, status, region, id, anchor_address })
}

/// The framed table of a node's settings that the binaries print: a
/// title box, then one line each for the ID, status, region, address and
/// anchor.
pub open spec fn details_text(s: Settings) -> Seq<char> {
    "╔════════════════════════════════════╗\n"@ + "║           NODE DETAILS            ║\n"@
        + "╠════════════════════════════════════╣\n"@ + "║ ID      : "@ + s.id + "\n"@
        + "║ Status  : "@ + s.status + "\n"@ + "║ Region  : "@ + s.region + "\n"@
        + "║ Address : "@ + s.node_address + "\n"@ + "║ Anchor  : "@ + s.anchor_address + "\n"@
        + "╚════════════════════════════════════╝\n"@
}

fn render_details(
    id: &String,
    status: &String,
    region: &String,
    node_address: &String,
    anchor_address: &String,
) -> (r: String)
    ensures
        r@ == details_text(
            Settings {
                node_address: node_address@,
                status: status@,
                region: region@,
                id: id@,
                anchor_address: anchor_address@,
            },
        ),
{
    let head = concat(
        "╔════════════════════════════════════╗\n",
        "║           NODE DETAILS            ║\n",
    );
    let t = concat(head.as_str(), "╠════════════════════════════════════╣\n");
    let t = concat(t.as_str(), "║ ID      : ");
    let t = concat(t.as_str(), id.as_str());
    let t = concat(t.as_str(), "\n");
    let t = concat(t.as_str(), "║ Status  : ");
    let t = concat(t.as_str(), status.as_str());
    let t = concat(t.as_str(), "\n");
    let t = concat(t.as_str(), "║ Region  : ");
    let t = concat(t.as_str(), region.as_str());
    let t = concat(t.as_str(), "\n");
    let t = concat(t.as_str(), "║ Address : ");
    let t = concat(t.as_str(), node_address.as_str());
    let t = concat(t.as_str(), "\n");
    let t = concat(t.as_str(), "║ Anchor  : ");
    let t = concat(t.as_str(), anchor_address.as_str());
    let t = concat(t.as_str(), "\n");
    concat(t.as_str(), "╚════════════════════════════════════╝\n")
}

/// A node's settings, as the interface binaries load them.
#[derive(Debug)]
pub struct Node {
    node_address: String,
    status: String,
    region: String,
    id: String,
    anchor_address: String,
}

impl Node {
    pub closed spec fn settings(&self) -> Settings {
        Settings {
            node_address: self.node_address@,
            status: self.status@,
            region: self.region@,
            id: self.id@,
            anchor_address: self.anchor_address@,
        }
    }

    /// The settings as the framed table that the binaries print.
    pub fn details(&self) -> (r: String)
        ensures
            r@ == details_text(self.settings()),
    {
        render_details(&self.id, &self.status, &self.region, &self.node_address, &self.anchor_address)
    }

    /// Parses the text of a node file, as [`NodeConfig::parse`] does but
    /// with the interface's messages.
    pub fn parse(content: &str) -> (r: Result<Node, String>)
        ensures
            match parse_settings(content@) {
                Err(_) => r matches Err(m) && m@ == "Invalid config line"@,
                Ok(s) => if s.id.len() == 0 {
                    r matches Err(m) && m@ == "ID is required create the identifier follow this steps"@
                } else {
                    r matches Ok(n) && n.settings() == s
                },
            },
    {
        match read_config(content) {
            Ok(c) => Ok(
                Node {
                    node_address: c.node_address,
                    status: c.status,
                    region: c.region,
                    id: c.id,
                    anchor_address: c.anchor_address,
                },
            ),
            Err(ConfigError::BadLine(_)) => Err(String::from_str("Invalid config line")),
            Err(ConfigError::MissingId) => Err(
                String::from_str("ID is required create the identifier follow this steps"),
            ),
        }
    }
}

impl NodeConfig {
    /// The settings as the framed table that the binaries print.
    pub fn details(&self) -> (r: String)
        ensures
            r@ == details_text(
                Settings {
                    node_address: self.node_address@,
                    status: self.status@,
                    region: self.region@,
                    id: self.id@,
                    anchor_address: self.anchor_address@,
                },
            ),
    {
        render_details(&self.id, &self.status, &self.region, &self.node_address, &self.anchor_address)
    }

    /// Parses the text of a configuration file. Each line is trimmed; blank
    /// lines and lines starting with `#` are skipped; every other line must
    /// be `key = value`, and the known keys (`NodeAddress`, `Status`,
    /// `Region`, `ID`, `AnchorAddress`) set the matching setting, the last
    /// one winning. `ID` is required.
    pub fn parse(content: &str) -> (r: Result<NodeConfig, String>)
        ensures
            match parse_settings(content@) {
                Err(line) => r matches Err(m) && m@ == "Invalid config line: "@ + line,
                Ok(s) => if s.id.len() == 0 {
                    r matches Err(m) && m@ == "ID is required in config.trench"@
                } else {
                    r matches Ok(c) && same_settings(&c, s)
                },
            },
    {
        match read_config(content) {
            Ok(c) => Ok(c),
            Err(ConfigError::BadLine(line)) => Err(concat("Invalid config line: ", line.as_str())),
            Err(ConfigError::MissingId) => Err(String::from_str("ID is required in config.trench")),
        }
    }
}

} // verus!
