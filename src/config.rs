use vstd::prelude::*;
use crate::crypto::Key;

verus! {

/// Transport protocol of a forwarded port.
#[derive(Debug, Clone, Copy, PartialEq, Eq, Hash, Structural)]
pub enum Protocol {
    UDP,
    TCP,
}

/// A port as advertised to the outside: a number and a protocol.
#[derive(Debug, Clone, Copy, PartialEq, Eq, Hash, Structural)]
pub struct Port {
    pub port: u16,
    pub protocol: Protocol,
}

/// The tag byte of a protocol on the wire.
pub open spec fn protocol_tag(p: Protocol) -> u8 {
    match p {
        Protocol::UDP => 0u8,
        Protocol::TCP => 1u8,
    }
}

/// The 3-byte wire form of a port: big-endian number, then the protocol tag.
pub open spec fn port_bytes(p: Port) -> Seq<u8> {
    seq![(p.port / 256) as u8, (p.port % 256) as u8, protocol_tag(p.protocol)]
}

/// A tag byte names a protocol only when it is 0 or 1.
pub open spec fn valid_tag(b: u8) -> bool {
    b == 0 || b == 1
}

/// The port that a 3-byte record with a valid tag stands for.
pub open spec fn port_of_bytes(b: Seq<u8>) -> Port {
    Port {
        port: (b[0] as int * 256 + b[1] as int) as u16,
        protocol: if b[2] == 0 { Protocol::UDP } else { Protocol::TCP },
    }
}

impl Port {
    pub fn to_bytes(&self) -> (r: [u8; 3])
        ensures
            r@ == port_bytes(*self),
    {
        let hi: u8 = (self.port / 256) as u8;
        let lo: u8 = (self.port % 256) as u8;
        let tag: u8 = match self.protocol {
            Protocol::UDP => 0,
            Protocol::TCP => 1,
        };
        let r = [hi, lo, tag];
        assert(r@ =~= port_bytes(*self));
        r
    }

    /// Reads a port from its wire form. The tag byte must be valid.
    pub fn from_bytes(buf: &[u8; 3]) -> (r: Port)
        requires
            valid_tag(buf@[2]),
        ensures
            r == port_of_bytes(buf@),
    {
        let port: u16 = (buf[0] as u16) * 256 + buf[1] as u16;
        let protocol = if buf[2] == 0 {
            Protocol::UDP
        } else {
            Protocol::TCP
        };
        Port { port, protocol }
    }

    pub fn new_tcp(port: u16) -> (r: Port)
        ensures
            r == (Port { port, protocol: Protocol::TCP }),
    {
        Port { port, protocol: Protocol::TCP }
    }
}

/// Decoding the wire form of a port gives the port back, and the wire form is
/// three bytes whose tag is valid.
pub proof fn lemma_port_round_trip(p: Port)
    ensures
        port_bytes(p).len() == 3,
        valid_tag(port_bytes(p)[2]),
        port_of_bytes(port_bytes(p)) == p,
{
    let b = port_bytes(p);
    assert(b[0] as int * 256 + b[1] as int == p.port as int);
}

/// A redirect table (advertised port, then the local port behind it) has an
/// entry for `p`.
pub open spec fn has_key(s: Seq<(Port, u16)>, p: Port) -> bool {
    exists|i: int| 0 <= i < s.len() && s[i].0 == p
}

/// No advertised port appears twice.
pub open spec fn unique_keys(s: Seq<(Port, u16)>) -> bool {
    forall|i: int, j: int| 0 <= i < j < s.len() ==> s[i].0 != s[j].0
}

/// Settings of a server endpoint.
pub struct ServerConfig {
    /// Advertised port and the loopback port behind it; keys are unique.
    pub redirects: Vec<(Port, u16)>,
    /// The gateway's `host:port`.
    pub gateway_address: String,
    /// An HTTP CONNECT proxy's `host:port`, if any.
    pub proxy: Option<String>,
}

impl ServerConfig {
    pub open spec fn wf(&self) -> bool {
        unique_keys(self.redirects@)
    }
}

/// Settings of a gateway endpoint.
pub struct GatewayConfig {
    pub port: u16,
}

pub enum SpecificConfig {
    Gateway(GatewayConfig),
    Server(ServerConfig),
}

/// Settings shared by both endpoints: the pre-shared key.
pub struct CommonConfig {
    pub key: Key,
}

/// A value of the configuration file, as far as the redirect rules read it.
#[derive(Debug)]
pub enum ConfigValue {
    Integer(i64),
    Text(String),
    Other,
}

/// The keys of the configuration file.
pub struct RawConfig {
    pub mode: String,
    pub port: u16,
    pub gateway_address: Option<String>,
    pub http_proxy: Option<String>,
    pub redirects: Option<Vec<Vec<ConfigValue>>>,
}

/// Why a configuration was refused.
#[derive(Debug, Clone, Copy, PartialEq, Eq, Structural)]
pub enum ConfigError {
    /// A redirect is not `[port, protocol]` or `[port, port, protocol]`.
    BadRedirectShape,
    /// A port is not an integer.
    PortNotInteger,
    /// A port does not fit in 16 bits.
    PortOutOfRange,
    /// A protocol is not a string.
    ProtocolNotString,
    /// A protocol is neither "TCP" nor "UDP".
    BadProtocol,
    /// An advertised port is listed twice.
    DuplicatePort,
    /// A server lists no redirects.
    MissingRedirects,
    /// A server does not name its gateway.
    MissingGatewayAddress,
    /// The mode is neither "gateway" nor "server".
    BadMode,
    /// A server found no key file.
    MissingKey,
}

pub open spec fn port_value(v: ConfigValue) -> Result<u16, ConfigError> {
    match v {
        ConfigValue::Integer(x) => if 0 <= x <= 65535 {
            Ok(x as u16)
        } else {
            Err(ConfigError::PortOutOfRange)
        },
        _ => Err(ConfigError::PortNotInteger),
    }
}

pub open spec fn protocol_value(v: ConfigValue) -> Result<Protocol, ConfigError> {
    match v {
        ConfigValue::Text(s) => if s@ == seq!['U', 'D', 'P'] {
            Ok(Protocol::UDP)
        } else if s@ == seq!['T', 'C', 'P'] {
            Ok(Protocol::TCP)
        } else {
            Err(ConfigError::BadProtocol)
        },
        _ => Err(ConfigError::ProtocolNotString),
    }
}

/// One redirect: `[port, protocol]` forwards a port to the same local port,
/// `[remote, local, protocol]` to another one.
pub open spec fn redirect_entry(e: Seq<ConfigValue>) -> Result<(Port, u16), ConfigError> {
    if e.len() < 2 || e.len() > 3 {
        Err(ConfigError::BadRedirectShape)
    } else {
        match port_value(e[0]) {
            Err(x) => Err(x),
            Ok(remote) => {
                let two_ports = e[1] is Integer;
                let local = if two_ports { port_value(e[1]) } else { Ok(remote) };
                let pi: int = if two_ports { 2 } else { 1 };
                match local {
                    Err(x) => Err(x),
                    Ok(l) => if pi >= e.len() {
                        Err(ConfigError::BadRedirectShape)
                    } else {
                        match protocol_value(e[pi]) {
                            Err(x) => Err(x),
                            Ok(p) => Ok((Port { port: remote, protocol: p }, l)),
                        }
                    },
                }
            },
        }
    }
}

/// The redirect table that a list of entries gives, or the first error.
pub open spec fn redirect_table(s: Seq<Vec<ConfigValue>>) -> Result<Seq<(Port, u16)>, ConfigError>
    decreases s.len(),
{
    if s.len() == 0 {
        Ok(Seq::empty())
    } else {
        match redirect_table(s.drop_last()) {
            Err(x) => Err(x),
            Ok(acc) => match redirect_entry(s.last()@) {
                Err(x) => Err(x),
                Ok(kv) => if has_key(acc, kv.0) {
                    Err(ConfigError::DuplicatePort)
                } else {
                    Ok(acc.push(kv))
                },
            },
        }
    }
}

fn parse_port_value(v: &ConfigValue) -> (r: Result<u16, ConfigError>)
    ensures
        r == port_value(*v),
{
    match v {
        ConfigValue::Integer(x) => if 0 <= *x && *x <= 65535 {
            Ok(*x as u16)
        } else {
            Err(ConfigError::PortOutOfRange)
        },
        _ => Err(ConfigError::PortNotInteger),
    }
}

fn parse_protocol_value(v: &ConfigValue) -> (r: Result<Protocol, ConfigError>)
    ensures
        r == protocol_value(*v),
{
    match v {
        ConfigValue::Text(s) => {
            proof {
                reveal_strlit("UDP");
                reveal_strlit("TCP");
            }
            let udp = "UDP".to_owned();
            let tcp = "TCP".to_owned();
            assert(udp@ =~= seq!['U', 'D', 'P']);
            assert(tcp@ =~= seq!['T', 'C', 'P']);
            if s.eq(&udp) {
                Ok(Protocol::UDP)
            } else if s.eq(&tcp) {
                Ok(Protocol::TCP)
            } else {
                Err(ConfigError::BadProtocol)
            }
        },
        _ => Err(ConfigError::ProtocolNotString),
    }
}

/// Reads one redirect entry.
pub fn parse_redirect(e: &Vec<ConfigValue>) -> (r: Result<(Port, u16), ConfigError>)
    ensures
        r == redirect_entry(e@),
{
    if e.len() < 2 || e.len() > 3 {
        return Err(ConfigError::BadRedirectShape);
    }
    let remote = parse_port_value(&e[0])?;
    let (pi, local) = match &e[1] {
        ConfigValue::Integer(_) => (2usize, parse_port_value(&e[1])?),
        _ => (1usize, remote),
    };
    if pi >= e.len() {
        return Err(ConfigError::BadRedirectShape);
    }
    let protocol = parse_protocol_value(&e[pi])?;
    Ok((Port { port: remote, protocol }, local))
}

fn table_has_key(acc: &Vec<(Port, u16)>, p: Port) -> (r: bool)
    ensures
        r == has_key(acc@, p),
{
    let mut i: usize = 0;
    while i < acc.len()
        invariant
            i <= acc@.len(),
            forall|j: int| 0 <= j < i ==> acc@[j].0 != p,
        decreases acc@.len() - i,
    {
        if acc[i].0 == p {
            return true;
        }
        i = i + 1;
    }
    false
}

proof fn lemma_table_error_stays(s: Seq<Vec<ConfigValue>>, i: int)
    requires
        0 <= i <= s.len(),
        redirect_table(s.take(i)) is Err,
    ensures
        redirect_table(s) == redirect_table(s.take(i)),
    decreases s.len() - i,
{
    if i < s.len() {
        assert(s.take(i + 1).drop_last() =~= s.take(i));
        lemma_table_error_stays(s, i + 1);
    } else {
        assert(s.take(i) =~= s);
    }
}

/// A redirect table read from entries never lists an advertised port twice.
pub proof fn lemma_table_keys_unique(s: Seq<Vec<ConfigValue>>)
    ensures
        redirect_table(s) matches Ok(t) ==> unique_keys(t),
    decreases s.len(),
{
    if s.len() > 0 {
        lemma_table_keys_unique(s.drop_last());
        if let Ok(t) = redirect_table(s) {
            let acc = redirect_table(s.drop_last())->Ok_0;
            assert forall|i: int, j: int| 0 <= i < j < t.len() implies t[i].0 != t[j].0 by {
                if j == t.len() - 1 {
                    if t[i].0 == t[j].0 {
                        assert(acc[i].0 == t[j].0);
                    }
                } else {
                    assert(acc[i] == t[i] && acc[j] == t[j]);
                }
            }
        }
    }
}

/// Reads the redirect table of a server: every entry, in order, with no
/// advertised port twice.
pub fn parse_redirects(entries: &Vec<Vec<ConfigValue>>) -> (r: Result<Vec<(Port, u16)>, ConfigError>)
    ensures
        match redirect_table(entries@) {
            Ok(t) => r matches Ok(v) && v@ == t,
            Err(x) => r == Err::<Vec<(Port, u16)>, ConfigError>(x),
        },
        r matches Ok(v) ==> unique_keys(v@),
{
    proof {
        lemma_table_keys_unique(entries@);
    }
    let mut acc: Vec<(Port, u16)> = Vec::new();
    let mut i: usize = 0;
    assert(entries@.take(0) =~= Seq::<Vec<ConfigValue>>::empty());
    while i < entries.len()
        invariant
            i <= entries@.len(),
            redirect_table(entries@.take(i as int)) == Ok::<Seq<(Port, u16)>, ConfigError>(acc@),
        decreases entries@.len() - i,
    {
        assert(entries@.take(i + 1).drop_last() =~= entries@.take(i as int));
        assert(entries@.take(i + 1).last() == entries@[i as int]);
        let kv = match parse_redirect(&entries[i]) {
            Ok(kv) => kv,
            Err(x) => {
                proof {
                    lemma_table_error_stays(entries@, i + 1);
                }
                return Err(x);
            },
        };
        if table_has_key(&acc, kv.0) {
            proof {
                lemma_table_error_stays(entries@, i + 1);
            }
            return Err(ConfigError::DuplicatePort);
        }
        acc.push(kv);
        i = i + 1;
    }
    assert(entries@.take(entries@.len() as int) =~= entries@);
    Ok(acc)
}

/// The decimal digit `d`, for `d < 10`.
pub open spec fn digit_char(d: nat) -> char {
    seq!['0', '1', '2', '3', '4', '5', '6', '7', '8', '9'][d as int]
}

/// `n` written in decimal, without leading zeros.
pub open spec fn decimal(n: nat) -> Seq<char>
    decreases n,
{
    if n < 10 {
        seq![digit_char(n)]
    } else {
        decimal(n / 10).push(digit_char(n % 10))
    }
}

/// Relies on std's `String::push`: appends one character.
#[verifier::external_body]
fn push_char(s: &mut String, c: char)
    ensures
        final(s)@ == old(s)@.push(c),
{
    s.push(c);
}

fn digit_of(d: u16) -> (c: char)
    requires
        d < 10,
    ensures
        c == digit_char(d as nat),
{
    let digits = ['0', '1', '2', '3', '4', '5', '6', '7', '8', '9'];
    assert(digits@ =~= seq!['0', '1', '2', '3', '4', '5', '6', '7', '8', '9']);
    digits[d as usize]
}

/// Appends `n` in decimal to `s`.
fn push_decimal(s: &mut String, n: u16)
    ensures
        final(s)@ == old(s)@ + decimal(n as nat),
    decreases n,
{
    if n < 10 {
        push_char(s, digit_of(n));
    } else {
        let ghost before = s@;
        push_decimal(s, n / 10);
        push_char(s, digit_of(n % 10));
        assert(s@ =~= before + decimal(n as nat));
    }
}

/// `host:port`, the port in decimal.
fn join_host_port(host: &String, port: u16) -> (r: String)
    ensures
        r@ == host@ + seq![':'] + decimal(port as nat),
{
    let mut r = host.clone();
    push_char(&mut r, ':');
    push_decimal(&mut r, port);
    r
}

pub open spec fn is_gateway_mode(m: Seq<char>) -> bool {
    m == seq!['g', 'a', 't', 'e', 'w', 'a', 'y']
}

pub open spec fn is_server_mode(m: Seq<char>) -> bool {
    m == seq!['s', 'e', 'r', 'v', 'e', 'r']
}

/// Turns the keys of a configuration file into the settings of one endpoint.
/// A server needs its redirects, then the gateway's host, whose address is
/// `host:port`.
pub fn build_config(raw: RawConfig) -> (r: Result<SpecificConfig, ConfigError>)
    ensures
        is_gateway_mode(raw.mode@) ==> (r matches Ok(SpecificConfig::Gateway(g)) && g.port == raw.port),
        is_server_mode(raw.mode@) ==> match raw.redirects {
            None => r == Err::<SpecificConfig, ConfigError>(ConfigError::MissingRedirects),
            Some(e) => match redirect_table(e@) {
                Err(x) => r == Err::<SpecificConfig, ConfigError>(x),
                Ok(t) => match raw.gateway_address {
                    None => r == Err::<SpecificConfig, ConfigError>(ConfigError::MissingGatewayAddress),
                    Some(h) => (r matches Ok(SpecificConfig::Server(c)) && c.redirects@ == t && c.wf()
                        && c.gateway_address@ == h@ + seq![':'] + decimal(raw.port as nat)
                        && c.proxy == raw.http_proxy),
                },
            },
        },
        !is_gateway_mode(raw.mode@) && !is_server_mode(raw.mode@)
            ==> r == Err::<SpecificConfig, ConfigError>(ConfigError::BadMode),
{
    proof {
        reveal_strlit("gateway");
        reveal_strlit("server");
    }
    let gateway = "gateway".to_owned();
    let server = "server".to_owned();
    assert(gateway@ =~= seq!['g', 'a', 't', 'e', 'w', 'a', 'y']);
    assert(server@ =~= seq!['s', 'e', 'r', 'v', 'e', 'r']);
    if raw.mode.eq(&gateway) {
        Ok(SpecificConfig::Gateway(GatewayConfig { port: raw.port }))
    } else if raw.mode.eq(&server) {
        let entries = match raw.redirects {
            Some(e) => e,
            None => return Err(ConfigError::MissingRedirects),
        };
        let redirects = parse_redirects(&entries)?;
        let host = match raw.gateway_address {
            Some(h) => h,
            None => return Err(ConfigError::MissingGatewayAddress),
        };
        let gateway_address = join_host_port(&host, raw.port);
        Ok(SpecificConfig::Server(ServerConfig { redirects, gateway_address, proxy: raw.http_proxy }))
    } else {
        Err(ConfigError::BadMode)
    }
}

/// What to do about the key file at startup.
#[derive(Debug, Clone, Copy, PartialEq, Eq, Structural)]
pub enum KeyFileAction {
    /// Read the key from the file.
    Read,
    /// Draw a fresh key and write it to the file.
    Create,
}

/// A gateway creates a missing key file; a server refuses to start without one.
pub fn key_file_action(specific: &SpecificConfig, exists: bool) -> (r: Result<KeyFileAction, ConfigError>)
    ensures
        exists ==> r == Ok::<KeyFileAction, ConfigError>(KeyFileAction::Read),
        !exists && specific is Gateway ==> r == Ok::<KeyFileAction, ConfigError>(KeyFileAction::Create),
        !exists && specific is Server ==> r == Err::<KeyFileAction, ConfigError>(ConfigError::MissingKey),
{
    if exists {
        Ok(KeyFileAction::Read)
    } else {
        match specific {
            SpecificConfig::Gateway(_) => Ok(KeyFileAction::Create),
            SpecificConfig::Server(_) => Err(ConfigError::MissingKey),
        }
    }
}

} // verus!
