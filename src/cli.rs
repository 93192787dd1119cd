use vstd::prelude::*;
use vstd::string::*;
use crate::html::{decimal, push_decimal};

verus! {

/// The port that the server listens on when no valid one was given.
pub const DEFAULT_PORT: u16 = 80;

/// The server's settings, read once at start and never changed.
pub struct CliArgs {
    /// Let the browser show files instead of downloading them.
    pub show_html: bool,
    /// Listen on localhost only.
    pub only_localhost: bool,
    /// The page served for every directory, if any.
    pub spa_file: Option<String>,
    /// The ports to listen on: at least one, none twice.
    pub listen_ports: Vec<u16>,
    /// The file that the log is written to, if any.
    pub log_file: Option<String>,
}

pub open spec fn is_digit(c: char) -> bool {
    '0' <= c && c <= '9'
}

/// The value of the decimal digits `s`.
pub open spec fn digits_value(s: Seq<char>) -> nat
    decreases s.len(),
{
    if s.len() == 0 {
        0
    } else {
        digits_value(s.drop_last()) * 10 + (s.last() as nat - '0' as nat) as nat
    }
}

/// `s` without a leading `+`.
pub open spec fn unsigned_part(s: Seq<char>) -> Seq<char> {
    if s.len() > 0 && s[0] == '+' {
        s.drop_first()
    } else {
        s
    }
}

/// The port that `s` writes: decimal digits after an optional `+`, of a
/// value that fits in a `u16`.
pub open spec fn port_of(s: Seq<char>) -> Option<u16> {
    let d = unsigned_part(s);
    if d.len() > 0 && (forall|i: int| 0 <= i < d.len() ==> is_digit(#[trigger] d[i]))
        && digits_value(d) <= u16::MAX {
        Some(digits_value(d) as u16)
    } else {
        None
    }
}

/// The valid ports of `texts`, each kept at its first place.
pub open spec fn ports_of(texts: Seq<Seq<char>>) -> Seq<u16>
    decreases texts.len(),
{
    if texts.len() == 0 {
        Seq::empty()
    } else {
        let prev = ports_of(texts.drop_last());
        match port_of(texts.last()) {
            Some(p) => if prev.contains(p) {
                prev
            } else {
                prev.push(p)
            },
            None => prev,
        }
    }
}

/// The texts of `texts` that write no port.
pub open spec fn invalid_ports(texts: Seq<Seq<char>>) -> Seq<Seq<char>>
    decreases texts.len(),
{
    if texts.len() == 0 {
        Seq::empty()
    } else {
        let prev = invalid_ports(texts.drop_last());
        if port_of(texts.last()) is None {
            prev.push(texts.last())
        } else {
            prev
        }
    }
}

/// The ports to listen on: those given, else the default one.
pub open spec fn listen_ports_of(texts: Seq<Seq<char>>) -> Seq<u16> {
    if ports_of(texts).len() == 0 {
        seq![DEFAULT_PORT]
    } else {
        ports_of(texts)
    }
}

/// Reads a port number.
pub fn parse_port(s: &str) -> (r: Option<u16>)
    ensures
        r == port_of(s@),
{
    let n = s.unicode_len();
    let mut start: usize = 0;
    if n > 0 && s.get_char(0) == '+' {
        start = 1;
    }
    let ghost d = unsigned_part(s@);
    assert(d =~= s@.subrange(start as int, n as int));
    if start == n {
        return None;
    }
    let mut v: u32 = 0;
    let mut i: usize = start;
    while i < n
        invariant
            n == s@.len(),
            start <= i <= n,
            d == s@.subrange(start as int, n as int),
            d == unsigned_part(s@),
            forall|k: int| start <= k < i ==> is_digit(#[trigger] s@[k]),
            v as nat == if digits_value(s@.subrange(start as int, i as int)) <= 65536 {
                digits_value(s@.subrange(start as int, i as int))
            } else {
                65536
            },
        decreases n - i,
    {
        let c = s.get_char(i);
        if !('0' <= c && c <= '9') {
            proof {
                let j = i - start;
                assert(d[j as int] == s@[i as int]);
                assert(!is_digit(d[j as int]));
            }
            return None;
        }
        let digit = (c as u32) - ('0' as u32);
        let ghost before = s@.subrange(start as int, i as int);
        let ghost after = s@.subrange(start as int, i as int + 1);
        assert(after.drop_last() =~= before);
        assert(digits_value(after) == digits_value(before) * 10 + digit);
        if v * 10 + digit > 65536 {
            v = 65536;
        } else {
            v = v * 10 + digit;
        }
        proof {
            if digits_value(before) > 65536 {
                assert(digits_value(before) * 10 + digit > 65536) by (nonlinear_arith)
                    requires
                        digits_value(before) > 65536,
                ;
            }
        }
        i = i + 1;
    }
    assert(s@.subrange(start as int, n as int) =~= d);
    if v > 65535 {
        None
    } else {
        Some(v as u16)
    }
}

fn contains_port(v: &Vec<u16>, p: u16) -> (r: bool)
    ensures
        r == v@.contains(p),
{
    let mut i: usize = 0;
    while i < v.len()
        invariant
            i <= v@.len(),
            forall|k: int| 0 <= k < i ==> v@[k] != p,
        decreases v@.len() - i,
    {
        if v[i] == p {
            return true;
        }
        i = i + 1;
    }
    false
}

impl CliArgs {
    /// The settings from the values on the command line: the page for
    /// directories turns showing files on; the valid ports are kept once
    /// each, in order, with the default port where none is valid. Also
    /// returns the texts that are no port, to be reported.
    pub fn from_values(
        show_html: bool,
        only_localhost: bool,
        spa_file: Option<String>,
        ports: &Vec<String>,
        log_file: Option<String>,
    ) -> (r: (CliArgs, Vec<String>))
        ensures
            r.0.show_html == (show_html || spa_file is Some),
            r.0.only_localhost == only_localhost,
            r.0.spa_file == spa_file,
            r.0.log_file == log_file,
            r.0.listen_ports@ == listen_ports_of(ports@.map_values(|t: String| t@)),
            r.0.listen_ports@.len() >= 1,
            r.0.listen_ports@.no_duplicates(),
            r.1@.map_values(|t: String| t@) == invalid_ports(ports@.map_values(|t: String| t@)),
    {
        let ghost texts = ports@.map_values(|t: String| t@);
        let mut listen: Vec<u16> = Vec::new();
        let mut invalid: Vec<String> = Vec::new();
        let mut i: usize = 0;
        while i < ports.len()
            invariant
                i <= ports@.len(),
                texts == ports@.map_values(|t: String| t@),
                listen@ == ports_of(texts.take(i as int)),
                invalid@.map_values(|t: String| t@) == invalid_ports(texts.take(i as int)),
            decreases ports@.len() - i,
        {
            let ghost prefix = texts.take(i as int + 1);
            assert(prefix.drop_last() =~= texts.take(i as int));
            assert(prefix.last() == ports@[i as int]@);
            match parse_port(ports[i].as_str()) {
                Some(p) => {
                    if !contains_port(&listen, p) {
                        listen.push(p);
                    }
                },
                None => {
                    let ghost old_invalid = invalid@;
                    invalid.push(ports[i].clone());
                    assert(invalid@.map_values(|t: String| t@) =~= old_invalid.map_values(
                        |t: String| t@,
                    ).push(ports@[i as int]@));
                },
            }
            i = i + 1;
        }
        assert(texts.take(ports@.len() as int) =~= texts);
        proof {
            lemma_ports_unique(texts);
        }
        if listen.len() == 0 {
            listen.push(DEFAULT_PORT);
            assert(listen@ =~= seq![DEFAULT_PORT]);
        }
        let args = CliArgs {
            show_html: show_html || spa_file.is_some(),
            only_localhost,
            spa_file,
            listen_ports: listen,
            log_file,
        };
        (args, invalid)
    }
}

/// No port is listed twice.
pub proof fn lemma_ports_unique(texts: Seq<Seq<char>>)
    ensures
        ports_of(texts).no_duplicates(),
    decreases texts.len(),
{
    if texts.len() > 0 {
        lemma_ports_unique(texts.drop_last());
    }
}

/// The address to bind for `port`.
pub open spec fn listen_addr_of(only_localhost: bool, port: u16) -> Seq<char> {
    (if only_localhost {
        "localhost:"@
    } else {
        "0.0.0.0:"@
    }) + decimal(port as nat)
}

/// `localhost:<port>` when only localhost is served, else every interface.
pub fn listen_addr(only_localhost: bool, port: u16) -> (r: String)
    ensures
        r@ == listen_addr_of(only_localhost, port),
{
    let mut s = if only_localhost {
        String::from_str("localhost:")
    } else {
        String::from_str("0.0.0.0:")
    };
    push_decimal(&mut s, port as u64);
    s
}

} // verus!
