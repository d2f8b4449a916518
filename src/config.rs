//! The proxy's configuration: a listen address and a port, read from a
//! line-oriented text of `Key value` directives.
use vstd::prelude::*;
use crate::text::{parse_port, port_number, same_text, trim, trimmed};

verus! {

pub const DEFAULT_PORT: u16 = 8080;

/// Where the proxy listens.
#[derive(Debug)]
pub struct Config {
    pub port: u16,
    pub listen_addr: String,
}

pub struct ConfigView {
    pub port: u16,
    pub listen_addr: Seq<char>,
}

impl View for Config {
    type V = ConfigView;

    open spec fn view(&self) -> ConfigView {
        ConfigView { port: self.port, listen_addr: self.listen_addr@ }
    }
}

pub open spec fn default_config() -> ConfigView {
    ConfigView { port: 8080, listen_addr: "127.0.0.1"@ }
}

impl Default for Config {
    fn default() -> (r: Config)
        ensures
            r@ == default_config(),
    {
        Config { port: DEFAULT_PORT, listen_addr: String::from_str("127.0.0.1") }
    }
}

/// What one directive does: `Port` sets the port, or the default port where
/// the value is no decimal 16-bit number; `Listen` sets the address; any other
/// key changes nothing.
pub open spec fn value_effect(key: Seq<char>, value: Seq<char>, c: ConfigView) -> ConfigView {
    if key == "Port"@ {
        ConfigView {
            port: match port_number(value) {
                Some(p) => p,
                None => 8080,
            },
            ..c
        }
    } else if key == "Listen"@ {
        ConfigView { listen_addr: value, ..c }
    } else {
        c
    }
}

pub open spec fn is_sep(c: char) -> bool {
    c == ' ' || c == '\t'
}

/// `i` is the position of the first space or tab of `t`.
pub open spec fn first_sep(t: Seq<char>, i: int) -> bool {
    0 <= i < t.len() && is_sep(t[i]) && forall|j: int| 0 <= j < i ==> !is_sep(#[trigger] t[j])
}

/// What one line does: comments (`#` after leading whitespace) and lines
/// without a separator are ignored; otherwise the line is split at its first
/// space or tab, into a key and a value, each trimmed.
pub open spec fn line_effect(line: Seq<char>, c: ConfigView) -> ConfigView {
    let t = trimmed(line);
    if t.len() > 0 && t[0] == '#' {
        c
    } else if exists|i: int| first_sep(t, i) {
        let i = choose|i: int| first_sep(t, i);
        value_effect(trimmed(t.take(i)), trimmed(t.skip(i)), c)
    } else {
        c
    }
}

/// The configuration after the lines, applied in order, to `c`.
pub open spec fn lines_effect(lines: Seq<Seq<char>>, c: ConfigView) -> ConfigView
    decreases lines.len(),
{
    if lines.len() == 0 {
        c
    } else {
        line_effect(lines.last(), lines_effect(lines.drop_last(), c))
    }
}

/// Applies one directive to `config`.
pub fn read_value(key: &str, value: &str, config: &mut Config)
    ensures
        final(config)@ == value_effect(key@, value@, old(config)@),
{
    if same_text(key, "Port") {
        config.port = match parse_port(value) {
            Some(p) => p,
            None => DEFAULT_PORT,
        };
    } else if same_text(key, "Listen") {
        config.listen_addr = String::from_str(value);
    }
}

/// Applies one line of a configuration text to `config`.
pub fn read_line(line: &str, config: &mut Config)
    ensures
        final(config)@ == line_effect(line@, old(config)@),
{
    let t = trim(line);
    let n = t.unicode_len();
    if n > 0 && t.get_char(0) == '#' {
        return;
    }
    let mut i: usize = 0;
    while i < n && !(t.get_char(i) == ' ' || t.get_char(i) == '\t')
        invariant
            n == t@.len(),
            i <= n,
            forall|j: int| 0 <= j < i ==> !is_sep(#[trigger] t@[j]),
        decreases n - i,
    {
        i = i + 1;
    }
    if i == n {
        assert forall|k: int| !first_sep(t@, k) by {
            if 0 <= k < n && is_sep(t@[k]) {
                assert(!is_sep(t@[k]));
            }
        }
        return;
    }
    assert(first_sep(t@, i as int));
    proof {
        let c = choose|k: int| first_sep(t@, k);
        if c < i {
            assert(!is_sep(t@[c]));
        }
        if i < c {
            assert(!is_sep(t@[i as int]));
        }
        assert(c == i);
        assert(t@.take(i as int) =~= t@.subrange(0, i as int));
        assert(t@.skip(i as int) =~= t@.subrange(i as int, n as int));
    }
    let key = trim(t.substring_char(0, i));
    let value = trim(t.substring_char(i, n));
    read_value(key, value, config);
}

/// The configuration that a text, given as its lines, describes: the
/// defaults, with each line applied in order.
pub fn load_lines(lines: &Vec<String>) -> (r: Config)
    ensures
        r@ == lines_effect(lines@.map_values(|l: String| l@), default_config()),
{
    let mut config = Config::default();
    let ghost views = lines@.map_values(|l: String| l@);
    let mut i: usize = 0;
    while i < lines.len()
        invariant
            i <= lines.len(),
            views == lines@.map_values(|l: String| l@),
            config@ == lines_effect(views.take(i as int), default_config()),
        decreases lines.len() - i,
    {
        assert(views.take(i + 1).drop_last() =~= views.take(i as int));
        read_line(lines[i].as_str(), &mut config);
        i = i + 1;
    }
    assert(views.take(lines.len() as int) =~= views);
    config
}

} // verus!
