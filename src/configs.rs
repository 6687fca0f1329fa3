//! Configs (per-device peer entries) and the client configuration file.

use vstd::prelude::*;
use vstd::string::StringSliceAdditionalSpecFns;
use vstd::utf8::encode_utf8;

use crate::keys::{base64_text, is_base64_char, key_to_base64};

verus! {

/// A per-device peer entry owned by a user. The IPv4 address is an integer,
/// most significant octet first.
#[derive(Debug)]
pub struct Config {
    pub id: u128,
    pub user_id: u128,
    pub ip: u32,
    pub pub_key: [u8; 32],
    pub priv_key: Option<[u8; 32]>,
    pub name: String,
    pub deleted: bool,
}

/// What the server tells clients about itself: its endpoint `host:port` and
/// the base64 text of its public key.
#[derive(Debug, Clone)]
pub struct ServerInfo {
    pub addr: String,
    pub pub_key: String,
}

/// The address and, if the server knows it, the base64 secret key of a client.
#[derive(Debug, Clone)]
pub struct ConfigInfo {
    pub ip: u32,
    pub priv_key: Option<String>,
}

/// Decimal text of a number, without leading zeros.
pub open spec fn decimal(n: u8) -> Seq<u8> {
    if n < 10 {
        seq![(48 + n) as u8]
    } else if n < 100 {
        seq![(48 + n / 10) as u8, (48 + n % 10) as u8]
    } else {
        seq![(48 + n / 100) as u8, (48 + (n / 10) % 10) as u8, (48 + n % 10) as u8]
    }
}

/// Dotted-decimal text of an IPv4 address.
pub open spec fn ipv4_text(ip: u32) -> Seq<u8> {
    decimal((ip / 0x100_0000) as u8) + seq![46u8] + decimal(((ip / 0x1_0000) % 256) as u8) + seq![
        46u8,
    ] + decimal(((ip / 0x100) % 256) as u8) + seq![46u8] + decimal((ip % 256) as u8)
}

/// Lines joined by single newlines, with none after the last.
pub open spec fn join_lines(ls: Seq<Seq<u8>>) -> Seq<u8>
    decreases ls.len(),
{
    if ls.len() == 0 {
        seq![]
    } else if ls.len() == 1 {
        ls[0]
    } else {
        join_lines(ls.drop_last()) + seq![10u8] + ls.last()
    }
}

/// The lines of a client configuration file, in order.
pub open spec fn config_lines(ip: Seq<u8>, private_key: Seq<u8>, server_key: Seq<u8>, endpoint: Seq<u8>) -> Seq<Seq<u8>> {
    seq![
        "[Interface]".spec_bytes(),
        "Address = ".spec_bytes() + ip,
        "PrivateKey = ".spec_bytes() + private_key,
        "ListenPort = 51820".spec_bytes(),
        seq![],
        "[Peer]".spec_bytes(),
        "PublicKey = ".spec_bytes() + server_key,
        "Endpoint = ".spec_bytes() + endpoint,
        "AllowedIPs = 0.0.0.0/0, ::/0".spec_bytes(),
    ]
}

/// The text of a client configuration file.
pub open spec fn config_text(ip: Seq<u8>, private_key: Seq<u8>, server_key: Seq<u8>, endpoint: Seq<u8>) -> Seq<u8> {
    join_lines(config_lines(ip, private_key, server_key, endpoint))
}

/// What stands in the file for a secret key the server does not know.
pub open spec fn missing_key_text() -> Seq<u8> {
    "<INSERT PRIVATE KEY>".spec_bytes()
}

/// Appends `b` to `out`.
fn push_bytes(out: &mut Vec<u8>, b: &[u8])
    ensures
        final(out)@ == old(out)@ + b@,
{
    let mut i: usize = 0;
    while i < b.len()
        invariant
            i <= b@.len(),
            out@ == old(out)@ + b@.subrange(0, i as int),
        decreases b@.len() - i,
    {
        proof {
            assert(b@.subrange(0, i + 1) =~= b@.subrange(0, i as int).push(b@[i as int]));
        }
        out.push(b[i]);
        i = i + 1;
    }
    proof {
        assert(b@.subrange(0, b@.len() as int) =~= b@);
    }
}

/// Decimal text of a number.
fn decimal_bytes(n: u8) -> (r: Vec<u8>)
    ensures
        r@ == decimal(n),
{
    let mut r: Vec<u8> = Vec::new();
    if n < 10 {
        r.push(48 + n);
    } else if n < 100 {
        r.push(48 + n / 10);
        r.push(48 + n % 10);
    } else {
        r.push(48 + n / 100);
        r.push(48 + (n / 10) % 10);
        r.push(48 + n % 10);
    }
    proof {
        assert(r@ =~= decimal(n));
    }
    r
}

/// Dotted-decimal text of an IPv4 address.
pub fn ipv4_to_text(ip: u32) -> (r: Vec<u8>)
    ensures
        r@ == ipv4_text(ip),
{
    let mut r = decimal_bytes((ip / 0x100_0000) as u8);
    r.push(46);
    let mut part = decimal_bytes(((ip / 0x1_0000) % 256) as u8);
    r.append(&mut part);
    r.push(46);
    let mut part = decimal_bytes(((ip / 0x100) % 256) as u8);
    r.append(&mut part);
    r.push(46);
    let mut part = decimal_bytes((ip % 256) as u8);
    r.append(&mut part);
    proof {
        assert(r@ =~= ipv4_text(ip));
    }
    r
}

/// Adding a line to joined lines puts a newline and the line at the end.
proof fn lemma_join_push(ls: Seq<Seq<u8>>, l: Seq<u8>)
    requires
        ls.len() >= 1,
    ensures
        join_lines(ls.push(l)) == join_lines(ls) + seq![10u8] + l,
{
    assert(ls.push(l).drop_last() =~= ls);
}

/// Appends a newline, then `prefix` and `value`, as one more line.
fn push_line(out: &mut Vec<u8>, prefix: &str, value: &[u8], Ghost(lines): Ghost<Seq<Seq<u8>>>)
    requires
        lines.len() >= 1,
        old(out)@ == join_lines(lines),
    ensures
        final(out)@ == join_lines(lines.push(prefix.spec_bytes() + value@)),
{
    out.push(10);
    push_bytes(out, prefix.as_bytes());
    push_bytes(out, value);
    proof {
        lemma_join_push(lines, prefix.spec_bytes() + value@);
        assert(out@ =~= join_lines(lines) + seq![10u8] + (prefix.spec_bytes() + value@));
    }
}

/// Writes the configuration file whose lines carry the given field texts.
fn write_config(ip: &[u8], private_key: &[u8], server_key: &[u8], endpoint: &[u8]) -> (r: Vec<u8>)
    ensures
        r@ == config_text(ip@, private_key@, server_key@, endpoint@),
{
    let none: Vec<u8> = Vec::new();
    let mut out: Vec<u8> = Vec::new();
    push_bytes(&mut out, "[Interface]".as_bytes());
    let ghost lines: Seq<Seq<u8>> = seq!["[Interface]".spec_bytes()];
    proof {
        assert(out@ =~= join_lines(lines));
    }
    push_line(&mut out, "Address = ", ip, Ghost(lines));
    let ghost lines = lines.push("Address = ".spec_bytes() + ip@);
    push_line(&mut out, "PrivateKey = ", private_key, Ghost(lines));
    let ghost lines = lines.push("PrivateKey = ".spec_bytes() + private_key@);
    push_line(&mut out, "ListenPort = 51820", none.as_slice(), Ghost(lines));
    let ghost lines = lines.push("ListenPort = 51820".spec_bytes() + none@);
    push_line(&mut out, "", none.as_slice(), Ghost(lines));
    let ghost lines = lines.push("".spec_bytes() + none@);
    push_line(&mut out, "[Peer]", none.as_slice(), Ghost(lines));
    let ghost lines = lines.push("[Peer]".spec_bytes() + none@);
    push_line(&mut out, "PublicKey = ", server_key, Ghost(lines));
    let ghost lines = lines.push("PublicKey = ".spec_bytes() + server_key@);
    push_line(&mut out, "Endpoint = ", endpoint, Ghost(lines));
    let ghost lines = lines.push("Endpoint = ".spec_bytes() + endpoint@);
    push_line(&mut out, "AllowedIPs = 0.0.0.0/0, ::/0", none.as_slice(), Ghost(lines));
    let ghost lines = lines.push("AllowedIPs = 0.0.0.0/0, ::/0".spec_bytes() + none@);
    proof {
        reveal_strlit("");
        assert("".spec_bytes() =~= Seq::<u8>::empty());
        assert(lines =~= config_lines(ip@, private_key@, server_key@, endpoint@));
    }
    out
}

impl Config {
    /// The client configuration file of this config: its address, its secret
    /// key in base64 (or a placeholder when the server does not know it), the
    /// server's public key and endpoint.
    pub fn config_file(&self, server: &ServerInfo) -> (r: Vec<u8>)
        ensures
            r@ == config_text(
                ipv4_text(self.ip),
                match self.priv_key {
                    Some(k) => encode_utf8(base64_text(k@)),
                    None => missing_key_text(),
                },
                encode_utf8(server.pub_key@),
                encode_utf8(server.addr@),
            ),
            no_newline(encode_utf8(server.pub_key@)) && no_newline(encode_utf8(server.addr@))
                ==> split_lines(r@) == config_lines(
                ipv4_text(self.ip),
                match self.priv_key {
                    Some(k) => encode_utf8(base64_text(k@)),
                    None => missing_key_text(),
                },
                encode_utf8(server.pub_key@),
                encode_utf8(server.addr@),
            ),
    {
        let ip = ipv4_to_text(self.ip);
        let mut private_key: Vec<u8> = Vec::new();
        match &self.priv_key {
            Some(k) => {
                let text = key_to_base64(k);
                push_bytes(&mut private_key, text.as_str().as_bytes());
                proof {
                    lemma_base64_no_newline(text@);
                    assert(private_key@ =~= encode_utf8(base64_text(k@)));
                }
            },
            None => {
                push_bytes(&mut private_key, "<INSERT PRIVATE KEY>".as_bytes());
                proof {
                    assert(private_key@ =~= missing_key_text());
                }
            },
        }
        let r = write_config(
            ip.as_slice(),
            private_key.as_slice(),
            server.pub_key.as_str().as_bytes(),
            server.addr.as_str().as_bytes(),
        );
        proof {
            lemma_literal_lines();
            lemma_ipv4_no_newline(self.ip);
            if no_newline(encode_utf8(server.pub_key@)) && no_newline(encode_utf8(server.addr@)) {
                lemma_config_round_trip(
                    ipv4_text(self.ip),
                    private_key@,
                    encode_utf8(server.pub_key@),
                    encode_utf8(server.addr@),
                );
            }
        }
        r
    }
}

/// The client configuration file for an address and an optional secret key
/// already in text form.
pub fn format_config(config: &ConfigInfo, server_info: &ServerInfo) -> (r: Vec<u8>)
    ensures
        r@ == config_text(
            ipv4_text(config.ip),
            match config.priv_key {
                Some(k) => encode_utf8(k@),
                None => missing_key_text(),
            },
            encode_utf8(server_info.pub_key@),
            encode_utf8(server_info.addr@),
        ),
{
    let ip = ipv4_to_text(config.ip);
    let mut private_key: Vec<u8> = Vec::new();
    match &config.priv_key {
        Some(k) => push_bytes(&mut private_key, k.as_str().as_bytes()),
        None => push_bytes(&mut private_key, "<INSERT PRIVATE KEY>".as_bytes()),
    }
    write_config(
        ip.as_slice(),
        private_key.as_slice(),
        server_info.pub_key.as_str().as_bytes(),
        server_info.addr.as_str().as_bytes(),
    )
}

/// The lines of a text split at each newline; a text without newline is one
/// line, and a newline at the end leaves an empty last line.
pub open spec fn split_lines(s: Seq<u8>) -> Seq<Seq<u8>>
    decreases s.len(),
{
    if s.len() == 0 {
        seq![seq![]]
    } else if s.last() == 10 {
        split_lines(s.drop_last()).push(seq![])
    } else {
        let ls = split_lines(s.drop_last());
        ls.update(ls.len() - 1, ls.last().push(s.last()))
    }
}

/// Whether a text holds no newline.
pub open spec fn no_newline(s: Seq<u8>) -> bool {
    forall|i: int| 0 <= i < s.len() ==> s[i] != 10
}

/// What follows `prefix` on a line: the value of a `key = value` line.
pub open spec fn value_after(line: Seq<u8>, prefix: Seq<u8>) -> Seq<u8> {
    line.subrange(prefix.len() as int, line.len() as int)
}

proof fn lemma_split_nonempty(s: Seq<u8>)
    ensures
        split_lines(s).len() >= 1,
    decreases s.len(),
{
    if s.len() > 0 {
        lemma_split_nonempty(s.drop_last());
    }
}

/// Text without newline extends the last line.
proof fn lemma_split_extend(a: Seq<u8>, l: Seq<u8>)
    requires
        no_newline(l),
    ensures
        split_lines(a).len() >= 1,
        split_lines(a + l) == split_lines(a).update(
            split_lines(a).len() - 1,
            split_lines(a).last() + l,
        ),
    decreases l.len(),
{
    lemma_split_nonempty(a);
    if l.len() == 0 {
        assert(a + l =~= a);
        assert(split_lines(a).last() + l =~= split_lines(a).last());
        assert(split_lines(a).update(split_lines(a).len() - 1, split_lines(a).last())
            =~= split_lines(a));
    } else {
        let l0 = l.drop_last();
        assert forall|i: int| 0 <= i < l0.len() implies l0[i] != 10 by {
            assert(l0[i] == l[i]);
        }
        lemma_split_extend(a, l0);
        assert((a + l).drop_last() =~= a + l0);
        assert((a + l).last() == l.last());
        assert(l.last() == l[l.len() - 1]);
        assert(split_lines(a).last() + l0 + seq![l.last()] =~= split_lines(a).last() + l);
        let ls = split_lines(a + l0);
        assert(ls.len() == split_lines(a).len());
        assert(ls.last() =~= split_lines(a).last() + l0);
        assert(ls.last().push(l.last()) =~= split_lines(a).last() + l);
        assert(ls.update(ls.len() - 1, ls.last().push(l.last())) =~= split_lines(a).update(
            split_lines(a).len() - 1,
            split_lines(a).last() + l,
        ));
    }
}

/// Splitting joined lines that hold no newline gives the lines back.
proof fn lemma_split_join(ls: Seq<Seq<u8>>)
    requires
        ls.len() >= 1,
        forall|i: int| 0 <= i < ls.len() ==> no_newline(#[trigger] ls[i]),
    ensures
        split_lines(join_lines(ls)) == ls,
    decreases ls.len(),
{
    if ls.len() == 1 {
        lemma_split_extend(seq![], ls[0]);
        assert(Seq::<u8>::empty() + ls[0] =~= ls[0]);
        assert(split_lines(Seq::<u8>::empty()) == seq![Seq::<u8>::empty()]);
        assert(Seq::<u8>::empty() + ls[0] =~= ls[0]);
        assert(seq![Seq::<u8>::empty()].update(0, Seq::<u8>::empty() + ls[0]) =~= ls);
    } else {
        let init = ls.drop_last();
        assert forall|i: int| 0 <= i < init.len() implies no_newline(#[trigger] init[i]) by {
            assert(init[i] == ls[i]);
        }
        lemma_split_join(init);
        let a = join_lines(init) + seq![10u8];
        assert(a.drop_last() =~= join_lines(init));
        assert(split_lines(a) == init.push(seq![]));
        assert(no_newline(ls[ls.len() - 1]));
        lemma_split_extend(a, ls.last());
        assert(join_lines(ls) == a + ls.last());
        assert(Seq::<u8>::empty() + ls.last() =~= ls.last());
        assert(init.push(seq![]).update(init.len() as int, Seq::<u8>::empty() + ls.last()) =~= ls);
    }
}

/// The fixed lines of the configuration file hold no newline.
proof fn lemma_literal_lines()
    ensures
        no_newline("[Interface]".spec_bytes()),
        no_newline("Address = ".spec_bytes()),
        no_newline("PrivateKey = ".spec_bytes()),
        no_newline("ListenPort = 51820".spec_bytes()),
        no_newline("[Peer]".spec_bytes()),
        no_newline("PublicKey = ".spec_bytes()),
        no_newline("Endpoint = ".spec_bytes()),
        no_newline("AllowedIPs = 0.0.0.0/0, ::/0".spec_bytes()),
        no_newline(missing_key_text()),
{
    broadcast use vstd::string::is_ascii_spec_bytes;

    reveal_strlit("[Interface]");
    reveal_strlit("Address = ");
    reveal_strlit("PrivateKey = ");
    reveal_strlit("ListenPort = 51820");
    reveal_strlit("[Peer]");
    reveal_strlit("PublicKey = ");
    reveal_strlit("Endpoint = ");
    reveal_strlit("AllowedIPs = 0.0.0.0/0, ::/0");
    reveal_strlit("<INSERT PRIVATE KEY>");
    assert(vstd::string::is_ascii("<INSERT PRIVATE KEY>"));
    assert(vstd::string::is_ascii("[Interface]"));
    assert(vstd::string::is_ascii("Address = "));
    assert(vstd::string::is_ascii("PrivateKey = "));
    assert(vstd::string::is_ascii("ListenPort = 51820"));
    assert(vstd::string::is_ascii("[Peer]"));
    assert(vstd::string::is_ascii("PublicKey = "));
    assert(vstd::string::is_ascii("Endpoint = "));
    assert(vstd::string::is_ascii("AllowedIPs = 0.0.0.0/0, ::/0"));
}

/// Two texts without newline join into one.
proof fn lemma_no_newline_concat(a: Seq<u8>, b: Seq<u8>)
    requires
        no_newline(a),
        no_newline(b),
    ensures
        no_newline(a + b),
{
    assert forall|i: int| 0 <= i < (a + b).len() implies (a + b)[i] != 10 by {
        if i < a.len() {
            assert((a + b)[i] == a[i]);
        } else {
            assert((a + b)[i] == b[i - a.len()]);
        }
    }
}

/// Base64 text holds no newline.
proof fn lemma_base64_no_newline(chars: Seq<char>)
    requires
        forall|i: int| 0 <= i < chars.len() ==> is_base64_char(#[trigger] chars[i]),
    ensures
        no_newline(encode_utf8(chars)),
{
    assert(vstd::utf8::is_ascii_chars(chars));
    vstd::utf8::is_ascii_chars_encode_utf8(chars);
    assert forall|i: int| 0 <= i < encode_utf8(chars).len() implies encode_utf8(chars)[i] != 10 by {
        assert(chars[i] as u8 == encode_utf8(chars)[i]);
        assert(is_base64_char(chars[i]));
    }
}

/// Dotted-decimal text holds no newline.
proof fn lemma_ipv4_no_newline(ip: u32)
    ensures
        no_newline(ipv4_text(ip)),
{
    let dot: Seq<u8> = seq![46u8];
    assert(no_newline(dot));
    let a = decimal((ip / 0x100_0000) as u8);
    let b = decimal(((ip / 0x1_0000) % 256) as u8);
    let c = decimal(((ip / 0x100) % 256) as u8);
    let d = decimal((ip % 256) as u8);
    assert(no_newline(a));
    assert(no_newline(b));
    assert(no_newline(c));
    assert(no_newline(d));
    lemma_no_newline_concat(a, dot);
    lemma_no_newline_concat(a + dot, b);
    lemma_no_newline_concat(a + dot + b, dot);
    lemma_no_newline_concat(a + dot + b + dot, c);
    lemma_no_newline_concat(a + dot + b + dot + c, dot);
    lemma_no_newline_concat(a + dot + b + dot + c + dot, d);
}

/// Round trip of the configuration file: as long as no field holds a
/// newline, reading the emitted text line by line gives back exactly the
/// lines of the file, in order, and the value after each key is the field
/// that was written there.
pub proof fn lemma_config_round_trip(ip: Seq<u8>, private_key: Seq<u8>, server_key: Seq<u8>, endpoint: Seq<u8>)
    requires
        no_newline(ip),
        no_newline(private_key),
        no_newline(server_key),
        no_newline(endpoint),
    ensures
        split_lines(config_text(ip, private_key, server_key, endpoint)) == config_lines(
            ip,
            private_key,
            server_key,
            endpoint,
        ),
        value_after(config_lines(ip, private_key, server_key, endpoint)[1], "Address = ".spec_bytes())
            == ip,
        value_after(config_lines(ip, private_key, server_key, endpoint)[2], "PrivateKey = ".spec_bytes())
            == private_key,
        value_after(config_lines(ip, private_key, server_key, endpoint)[6], "PublicKey = ".spec_bytes())
            == server_key,
        value_after(config_lines(ip, private_key, server_key, endpoint)[7], "Endpoint = ".spec_bytes())
            == endpoint,
{
    lemma_literal_lines();
    lemma_no_newline_concat("Address = ".spec_bytes(), ip);
    lemma_no_newline_concat("PrivateKey = ".spec_bytes(), private_key);
    lemma_no_newline_concat("PublicKey = ".spec_bytes(), server_key);
    lemma_no_newline_concat("Endpoint = ".spec_bytes(), endpoint);
    let ls = config_lines(ip, private_key, server_key, endpoint);
    assert(no_newline(Seq::<u8>::empty()));
    assert forall|i: int| 0 <= i < ls.len() implies no_newline(#[trigger] ls[i]) by {
        if i == 4 {
            assert(ls[4] =~= Seq::<u8>::empty());
        }
    }
    lemma_split_join(ls);
    assert(value_after(ls[1], "Address = ".spec_bytes()) =~= ip);
    assert(value_after(ls[2], "PrivateKey = ".spec_bytes()) =~= private_key);
    assert(value_after(ls[6], "PublicKey = ".spec_bytes()) =~= server_key);
    assert(value_after(ls[7], "Endpoint = ".spec_bytes()) =~= endpoint);
}

/// Accumulated traffic of a public key.
#[derive(Debug, Clone, Copy, PartialEq, Eq)]
pub struct Stats {
    pub pub_key: [u8; 32],
    pub tx: u64,
    pub rx: u64,
}

/// A config together with the traffic of its key.
#[derive(Debug)]
pub struct FullConfig {
    pub config: Config,
    pub stats: Stats,
}

} // verus!
