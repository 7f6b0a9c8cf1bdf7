//! Server browsing: known servers and their lists (favourites, history,
//! friends), key-value filters, query challenges, server rules, and the
//! query packets of the server query protocol.
use vstd::prelude::*;

use crate::keyed::{first_index, index_from};
use crate::text::{chars_of, decimal, push_decimal, string_from};

verus! {

/// Which list of servers is asked for.
#[derive(Debug, Clone, Copy, PartialEq, Eq, Structural)]
pub enum ServerType {
    Internet,
    Lan,
    Friends,
    Favorites,
    History,
    Spectator,
}

/// A filter of a server list.
#[derive(Debug, Clone, PartialEq, Eq)]
pub struct MatchMakingKeyValuePair {
    pub key: String,
    pub value: String,
}

impl MatchMakingKeyValuePair {
    /// The pair `key`, `value`.
    pub fn new(key: &str, value: &str) -> (r: Self)
        ensures
            r.key@ == key@ && r.value@ == value@,
    {
        MatchMakingKeyValuePair { key: key.to_owned(), value: value.to_owned() }
    }
}

/// A server's IPv4 address (as a number) and its two ports.
#[derive(Debug, Clone, Copy, PartialEq, Eq, Hash, Structural)]
pub struct ServerNetAdr {
    pub ip: u32,
    pub connection_port: u16,
    pub query_port: u16,
}

/// Dotted-quad text of `ip`, then `:` and `port`.
pub open spec fn address_text(ip: u32, port: u16) -> Seq<char> {
    decimal(((ip >> 24u32) & 0xffu32) as nat) + seq!['.'] + decimal(((ip >> 16u32) & 0xffu32) as nat) + seq!['.']
        + decimal(((ip >> 8u32) & 0xffu32) as nat) + seq!['.'] + decimal((ip & 0xffu32) as nat) + seq![':']
        + decimal(port as nat)
}

fn address_string(ip: u32, port: u16) -> (r: String)
    ensures
        r@ == address_text(ip, port),
{
    let mut v: Vec<char> = Vec::new();
    push_decimal(&mut v, (ip >> 24u32) & 0xffu32);
    v.push('.');
    push_decimal(&mut v, (ip >> 16u32) & 0xffu32);
    v.push('.');
    push_decimal(&mut v, (ip >> 8u32) & 0xffu32);
    v.push('.');
    push_decimal(&mut v, ip & 0xffu32);
    v.push(':');
    push_decimal(&mut v, port as u32);
    assert(v@ =~= address_text(ip, port));
    string_from(&v)
}

impl ServerNetAdr {
    /// The address `ip` with its ports.
    pub fn new(ip: u32, connection_port: u16, query_port: u16) -> (r: Self)
        ensures
            r.ip == ip && r.connection_port == connection_port && r.query_port == query_port,
    {
        ServerNetAdr { ip, connection_port, query_port }
    }

    /// `a.b.c.d:port` for joining.
    pub fn connection_address(&self) -> (r: String)
        ensures
            r@ == address_text(self.ip, self.connection_port),
    {
        address_string(self.ip, self.connection_port)
    }

    /// `a.b.c.d:port` for queries.
    pub fn query_address(&self) -> (r: String)
        ensures
            r@ == address_text(self.ip, self.query_port),
    {
        address_string(self.ip, self.query_port)
    }
}

/// What a server reports of itself.
#[derive(Debug, Clone)]
pub struct GameServerInfo {
    pub addr: String,
    pub server_name: String,
    pub map: String,
    pub game_dir: String,
    pub game_description: String,
    pub app_id: u32,
    pub players: u8,
    pub max_players: u8,
    pub bots: u8,
    pub server_type: char,
    pub os: char,
    pub password: bool,
    pub secure: bool,
    pub version: String,
    pub ping: u32,
    pub steam_id: u64,
    pub tags: String,
}

impl Default for GameServerInfo {
    /// Empty texts, zero counts, a dedicated Linux server, secure.
    fn default() -> (r: Self)
        ensures
            r.app_id == 0 && r.players == 0 && r.max_players == 0 && r.ping == 0,
            r.server_type == 'd' && r.os == 'l' && !r.password && r.secure,
            r.map@.len() == 0 && r.tags@.len() == 0 && r.game_dir@.len() == 0,
    {
        GameServerInfo {
            addr: String::new(),
            server_name: String::new(),
            map: String::new(),
            game_dir: String::new(),
            game_description: String::new(),
            app_id: 0,
            players: 0,
            max_players: 0,
            bots: 0,
            server_type: 'd',
            os: 'l',
            password: false,
            secure: true,
            version: String::new(),
            ping: 0,
            steam_id: 0,
            tags: String::new(),
        }
    }
}

/// One server rule.
#[derive(Debug, Clone)]
pub struct ServerRule {
    pub name: String,
    pub value: String,
}

/// Kinds of query.
#[derive(Debug, Clone, Copy, PartialEq, Eq, Structural)]
pub enum A2SQueryType {
    Info,
    Player,
    Rules,
    Challenge,
}

impl A2SQueryType {
    /// The header byte of the query.
    pub open spec fn spec_header(self) -> u8 {
        match self {
            A2SQueryType::Info => 0x54,
            A2SQueryType::Player => 0x55,
            A2SQueryType::Rules => 0x56,
            A2SQueryType::Challenge => 0x57,
        }
    }

    /// The header byte of the query.
    pub fn header_byte(&self) -> (r: u8)
        ensures
            r == self.spec_header(),
    {
        match self {
            A2SQueryType::Info => 0x54,
            A2SQueryType::Player => 0x55,
            A2SQueryType::Rules => 0x56,
            A2SQueryType::Challenge => 0x57,
        }
    }
}

/// Kinds of response.
#[derive(Debug, Clone, Copy, PartialEq, Eq, Structural)]
pub enum A2SResponseType {
    Info,
    Player,
    Rules,
    Challenge,
}

/// The response kind of header byte `b`.
pub open spec fn response_of(b: u8) -> Option<A2SResponseType> {
    if b == 0x49 {
        Some(A2SResponseType::Info)
    } else if b == 0x44 {
        Some(A2SResponseType::Player)
    } else if b == 0x45 {
        Some(A2SResponseType::Rules)
    } else if b == 0x41 {
        Some(A2SResponseType::Challenge)
    } else {
        None
    }
}

impl A2SResponseType {
    /// The response kind of header byte `byte`.
    pub fn from_byte(byte: u8) -> (r: Option<Self>)
        ensures
            r == response_of(byte),
    {
        if byte == 0x49 {
            Some(A2SResponseType::Info)
        } else if byte == 0x44 {
            Some(A2SResponseType::Player)
        } else if byte == 0x45 {
            Some(A2SResponseType::Rules)
        } else if byte == 0x41 {
            Some(A2SResponseType::Challenge)
        } else {
            None
        }
    }
}

/// Outcome of a query.
#[derive(Debug, Clone, Copy, PartialEq, Eq, Structural)]
pub enum QueryResult {
    Answered,
    Timeout,
    InvalidResponse,
    NotResponding,
    RateLimited,
}

/// The four-byte prefix of a single-packet message.
pub open spec fn single_prefix() -> Seq<u8> {
    seq![0xFFu8, 0xFFu8, 0xFFu8, 0xFFu8]
}

/// The query text of an info request, with its terminating zero.
pub open spec fn info_text() -> Seq<u8> {
    seq![83u8, 111u8, 117u8, 114u8, 99u8, 101u8, 32u8, 69u8, 110u8, 103u8, 105u8, 110u8, 101u8, 32u8, 81u8, 117u8,
        101u8, 114u8, 121u8, 0u8]
}

/// Little-endian bytes of `v`.
pub open spec fn le32_bytes(v: u32) -> Seq<u8> {
    seq![v as u8, (v >> 8u32) as u8, (v >> 16u32) as u8, (v >> 24u32) as u8]
}

fn push_le(v: &mut Vec<u8>, x: u32)
    ensures
        final(v)@ == old(v)@ + le32_bytes(x),
{
    v.push(x as u8);
    v.push((x >> 8u32) as u8);
    v.push((x >> 16u32) as u8);
    v.push((x >> 24u32) as u8);
    assert(v@ =~= old(v)@ + le32_bytes(x));
}

fn header(kind: u8) -> (r: Vec<u8>)
    ensures
        r@ == single_prefix().push(kind),
{
    let mut p: Vec<u8> = Vec::new();
    p.push(0xFF);
    p.push(0xFF);
    p.push(0xFF);
    p.push(0xFF);
    p.push(kind);
    assert(p@ =~= single_prefix().push(kind));
    p
}

/// Builds and reads query packets.
pub struct A2SQuery;

impl A2SQuery {
    /// Largest packet of the protocol.
    pub const MAX_PACKET_SIZE: usize = 1400;

    /// An info request: the prefix, `T`, and the query text.
    pub fn build_info_query() -> (r: Vec<u8>)
        ensures
            r@ == single_prefix().push(0x54u8) + info_text(),
    {
        let mut p = header(0x54);
        let text: [u8; 20] = [83, 111, 117, 114, 99, 101, 32, 69, 110, 103, 105, 110, 101, 32, 81, 117, 101, 114, 121, 0];
        let ghost start = p@;
        let mut i: usize = 0;
        while i < 20
            invariant
                i <= 20,
                p@ == start + text@.subrange(0, i as int),
            decreases 20 - i,
        {
            p.push(text[i]);
            i = i + 1;
            assert(p@ =~= start + text@.subrange(0, i as int));
        }
        assert(text@ =~= info_text());
        assert(text@.subrange(0, 20) =~= text@);
        p
    }

    /// A player request with `challenge`.
    pub fn build_player_query(challenge: u32) -> (r: Vec<u8>)
        ensures
            r@ == single_prefix().push(0x55u8) + le32_bytes(challenge),
    {
        let mut p = header(0x55);
        push_le(&mut p, challenge);
        p
    }

    /// A rules request with `challenge`.
    pub fn build_rules_query(challenge: u32) -> (r: Vec<u8>)
        ensures
            r@ == single_prefix().push(0x56u8) + le32_bytes(challenge),
    {
        let mut p = header(0x56);
        push_le(&mut p, challenge);
        p
    }

    /// A challenge request for `query_type`: its header and challenge -1.
    pub fn build_challenge_request(query_type: A2SQueryType) -> (r: Vec<u8>)
        ensures
            r@ == single_prefix().push(query_type.spec_header()) + single_prefix(),
    {
        let mut p = header(query_type.header_byte());
        let ghost start = p@;
        p.push(0xFF);
        p.push(0xFF);
        p.push(0xFF);
        p.push(0xFF);
        assert(p@ =~= start + single_prefix());
        p
    }

    /// The response kind of a single-packet response.
    pub fn parse_response_type(packet: &[u8]) -> (r: Option<A2SResponseType>)
        ensures
            r == if packet@.len() >= 5 && packet@.subrange(0, 4) == single_prefix() {
                response_of(packet@[4])
            } else {
                None
            },
    {
        if packet.len() < 5 {
            return None;
        }
        if !(packet[0] == 0xFF && packet[1] == 0xFF && packet[2] == 0xFF && packet[3] == 0xFF) {
            assert(packet@.subrange(0, 4) != single_prefix()) by {
                if packet@.subrange(0, 4) == single_prefix() {
                    assert(packet@.subrange(0, 4)[0] == 0xFFu8 && packet@.subrange(0, 4)[1] == 0xFFu8);
                    assert(packet@.subrange(0, 4)[2] == 0xFFu8 && packet@.subrange(0, 4)[3] == 0xFFu8);
                }
            }
            return None;
        }
        assert(packet@.subrange(0, 4) =~= single_prefix());
        A2SResponseType::from_byte(packet[4])
    }

    /// Whether the packet starts with the split-packet prefix `FE FF FF FF`.
    pub fn is_multi_packet(packet: &[u8]) -> (r: bool)
        ensures
            r == (packet@.len() >= 4 && packet@.subrange(0, 4) == seq![0xFEu8, 0xFFu8, 0xFFu8, 0xFFu8]),
    {
        if packet.len() < 4 {
            return false;
        }
        let r = packet[0] == 0xFE && packet[1] == 0xFF && packet[2] == 0xFF && packet[3] == 0xFF;
        proof {
            let s = packet@.subrange(0, 4);
            if r {
                assert(s =~= seq![0xFEu8, 0xFFu8, 0xFFu8, 0xFFu8]);
            } else if s == seq![0xFEu8, 0xFFu8, 0xFFu8, 0xFFu8] {
                assert(s[0] == 0xFEu8 && s[1] == 0xFFu8 && s[2] == 0xFFu8 && s[3] == 0xFFu8);
            }
        }
        r
    }
}

/// Whether `needle` occurs in `hay` (the empty text occurs everywhere).
pub open spec fn contains_sub(hay: Seq<char>, needle: Seq<char>) -> bool {
    exists|i: int| 0 <= i && i + needle.len() <= hay.len() && #[trigger] hay.subrange(i, i + needle.len()) == needle
}

/// Whether `needle` occurs in `hay`.
pub fn contains_text(hay: &Vec<char>, needle: &Vec<char>) -> (r: bool)
    ensures
        r == contains_sub(hay@, needle@),
{
    let n = needle.len();
    if n > hay.len() {
        return false;
    }
    let mut i: usize = 0;
    while i <= hay.len() - n
        invariant
            n == needle@.len() <= hay@.len(),
            hay@.len() <= usize::MAX,
            i <= hay@.len() - n + 1,
            forall|k: int| 0 <= k < i ==> #[trigger] hay@.subrange(k, k + n as int) != needle@,
        decreases hay@.len() - i,
    {
        let mut j: usize = 0;
        let mut same = true;
        while j < n
            invariant
                j <= n == needle@.len(),
                i + n <= hay@.len() <= usize::MAX,
                same == forall|m: int| 0 <= m < j ==> hay@[i + m] == needle@[m],
            decreases n - j,
        {
            if hay[i + j] != needle[j] {
                same = false;
            }
            j = j + 1;
        }
        if same {
            assert(hay@.subrange(i as int, i + n) =~= needle@);
            return true;
        }
        proof {
            let m = choose|m: int| 0 <= m < n && hay@[i + m] != needle@[m];
            assert(hay@.subrange(i as int, i + n)[m] != needle@[m]);
        }
        i = i + 1;
    }
    false
}

/// Whether `v` spells exactly `lit`.
fn chars_are(v: &Vec<char>, lit: &[char]) -> (r: bool)
    ensures
        r == (v@ == lit@),
{
    if v.len() != lit.len() {
        return false;
    }
    let mut i: usize = 0;
    while i < v.len()
        invariant
            i <= v@.len() == lit@.len(),
            forall|k: int| 0 <= k < i ==> v@[k] == lit@[k],
        decreases v@.len() - i,
    {
        if v[i] != lit[i] {
            return false;
        }
        i = i + 1;
    }
    assert(v@ =~= lit@);
    true
}

/// A private (10/8, 172.16/12, 192.168/16) or loopback (127/8) address.
pub open spec fn is_lan_ip(ip: u32) -> bool {
    (ip >> 24u32) == 10 || (ip >> 20u32) == 0xAC1 || (ip >> 16u32) == 0xC0A8 || (ip >> 24u32) == 127
}

/// Whether server `s` passes filter `f`; unknown keys pass everything.
pub open spec fn filter_passes(s: GameServerInfo, f: MatchMakingKeyValuePair) -> bool {
    let k = f.key@;
    let v = f.value@;
    let one = v == seq!['1'];
    if k == seq!['a', 'p', 'p', 'i', 'd'] {
        decimal(s.app_id as nat) == v
    } else if k == seq!['m', 'a', 'p'] {
        contains_sub(s.map@, v)
    } else if k == seq!['g', 'a', 'm', 'e', 'd', 'i', 'r'] {
        s.game_dir@ == v
    } else if k == seq!['s', 'e', 'c', 'u', 'r', 'e'] {
        s.secure == one
    } else if k == seq!['n', 'o', 't', 'f', 'u', 'l', 'l'] {
        !(one && s.players >= s.max_players)
    } else if k == seq!['h', 'a', 's', 'p', 'l', 'a', 'y', 'e', 'r', 's'] {
        !(one && s.players == 0)
    } else if k == seq!['n', 'o', 'p', 'l', 'a', 'y', 'e', 'r', 's'] {
        !(one && s.players > 0)
    } else if k == seq!['g', 'a', 'm', 'e', 't', 'y', 'p', 'e'] {
        contains_sub(s.tags@, v)
    } else {
        true
    }
}

/// Whether server `s` passes every filter.
pub open spec fn passes_all(s: GameServerInfo, fs: Seq<MatchMakingKeyValuePair>) -> bool {
    forall|k: int| 0 <= k < fs.len() ==> filter_passes(s, #[trigger] fs[k])
}

fn passes(s: &GameServerInfo, f: &MatchMakingKeyValuePair) -> (r: bool)
    ensures
        r == filter_passes(*s, *f),
{
    let k = chars_of(f.key.as_str());
    let v = chars_of(f.value.as_str());
    let one = chars_are(&v, &['1']);
    assert(['1']@ =~= seq!['1']);
    let appid = ['a', 'p', 'p', 'i', 'd'];
    let map = ['m', 'a', 'p'];
    let gamedir = ['g', 'a', 'm', 'e', 'd', 'i', 'r'];
    let secure = ['s', 'e', 'c', 'u', 'r', 'e'];
    let notfull = ['n', 'o', 't', 'f', 'u', 'l', 'l'];
    let hasplayers = ['h', 'a', 's', 'p', 'l', 'a', 'y', 'e', 'r', 's'];
    let noplayers = ['n', 'o', 'p', 'l', 'a', 'y', 'e', 'r', 's'];
    let gametype = ['g', 'a', 'm', 'e', 't', 'y', 'p', 'e'];
    assert(appid@ =~= seq!['a', 'p', 'p', 'i', 'd']);
    assert(map@ =~= seq!['m', 'a', 'p']);
    assert(gamedir@ =~= seq!['g', 'a', 'm', 'e', 'd', 'i', 'r']);
    assert(secure@ =~= seq!['s', 'e', 'c', 'u', 'r', 'e']);
    assert(notfull@ =~= seq!['n', 'o', 't', 'f', 'u', 'l', 'l']);
    assert(hasplayers@ =~= seq!['h', 'a', 's', 'p', 'l', 'a', 'y', 'e', 'r', 's']);
    assert(noplayers@ =~= seq!['n', 'o', 'p', 'l', 'a', 'y', 'e', 'r', 's']);
    assert(gametype@ =~= seq!['g', 'a', 'm', 'e', 't', 'y', 'p', 'e']);
    if chars_are(&k, &appid) {
        let mut d: Vec<char> = Vec::new();
        push_decimal(&mut d, s.app_id);
        assert(d@ =~= decimal(s.app_id as nat));
        chars_are(&d, v.as_slice())
    } else if chars_are(&k, &map) {
        contains_text(&chars_of(s.map.as_str()), &v)
    } else if chars_are(&k, &gamedir) {
        chars_are(&chars_of(s.game_dir.as_str()), v.as_slice())
    } else if chars_are(&k, &secure) {
        s.secure == one
    } else if chars_are(&k, &notfull) {
        !(one && s.players >= s.max_players)
    } else if chars_are(&k, &hasplayers) {
        !(one && s.players == 0)
    } else if chars_are(&k, &noplayers) {
        !(one && s.players > 0)
    } else if chars_are(&k, &gametype) {
        contains_text(&chars_of(s.tags.as_str()), &v)
    } else {
        true
    }
}

/// Whether a server entry is for `a`.
pub open spec fn server_at(a: ServerNetAdr) -> spec_fn((ServerNetAdr, GameServerInfo)) -> bool {
    |e: (ServerNetAdr, GameServerInfo)| e.0 == a
}

/// Most entries of the history list.
pub const MAX_HISTORY: usize = 100;

/// Known servers, the lists over them, filters and query challenges.
pub struct ServerBrowser {
    app_id: u32,
    servers: Vec<(ServerNetAdr, GameServerInfo)>,
    favorites: Vec<ServerNetAdr>,
    pub history: Vec<ServerNetAdr>,
    friends_servers: Vec<ServerNetAdr>,
    filters: Vec<MatchMakingKeyValuePair>,
    challenges: Vec<(ServerNetAdr, u32)>,
    next_challenge: u32,
}

impl ServerBrowser {
    /// Known servers by address, in first-added order.
    pub closed spec fn servers(&self) -> Seq<(ServerNetAdr, GameServerInfo)> {
        self.servers@
    }

    /// Favourites, in added order.
    pub closed spec fn favorites(&self) -> Seq<ServerNetAdr> {
        self.favorites@
    }

    /// History, most recent first.
    pub closed spec fn history(&self) -> Seq<ServerNetAdr> {
        self.history@
    }

    /// Servers friends play on.
    pub closed spec fn friends(&self) -> Seq<ServerNetAdr> {
        self.friends_servers@
    }

    /// Active filters.
    pub closed spec fn filters(&self) -> Seq<MatchMakingKeyValuePair> {
        self.filters@
    }

    /// Challenges handed out, by address.
    pub closed spec fn challenges(&self) -> Seq<(ServerNetAdr, u32)> {
        self.challenges@
    }

    /// The next challenge number.
    pub closed spec fn spec_next_challenge(&self) -> u32 {
        self.next_challenge
    }

    /// The info of server `a`, if known.
    pub open spec fn server_of(&self, a: ServerNetAdr) -> Option<GameServerInfo> {
        let i = first_index(self.servers(), server_at(a));
        if i < 0 { None } else { Some(self.servers()[i].1) }
    }

    /// Nothing known; challenges start at 1000.
    pub fn new(app_id: u32) -> (r: Self)
        ensures
            r.servers().len() == 0 && r.favorites().len() == 0 && r.history().len() == 0,
            r.friends().len() == 0 && r.filters().len() == 0 && r.challenges().len() == 0,
            r.spec_next_challenge() == 1000,
    {
        ServerBrowser {
            app_id,
            servers: Vec::new(),
            favorites: Vec::new(),
            history: Vec::new(),
            friends_servers: Vec::new(),
            filters: Vec::new(),
            challenges: Vec::new(),
            next_challenge: 1000,
        }
    }

    /// Adds a filter.
    pub fn add_filter(&mut self, key: &str, value: &str)
        ensures
            final(self).filters().len() == old(self).filters().len() + 1,
            final(self).filters().last().key@ == key@ && final(self).filters().last().value@ == value@,
            final(self).filters().subrange(0, old(self).filters().len() as int) == old(self).filters(),
            final(self).servers() == old(self).servers(),
    {
        self.filters.push(MatchMakingKeyValuePair::new(key, value));
        assert(self.filters@.subrange(0, old(self).filters@.len() as int) =~= old(self).filters@);
    }

    /// Removes every filter.
    pub fn clear_filters(&mut self)
        ensures
            final(self).filters().len() == 0,
            final(self).servers() == old(self).servers(),
    {
        self.filters.clear();
    }

    fn find_server(&self, a: ServerNetAdr) -> (r: Option<usize>)
        ensures
            match r {
                Some(i) => i as int == first_index(self.servers@, server_at(a)) && i < self.servers@.len(),
                None => first_index(self.servers@, server_at(a)) == -1,
            },
    {
        let ghost p = server_at(a);
        let mut i: usize = 0;
        while i < self.servers.len()
            invariant
                i <= self.servers@.len(),
                p == server_at(a),
                index_from(self.servers@, p, i as int) == first_index(self.servers@, p),
            decreases self.servers@.len() - i,
        {
            if self.servers[i].0 == a {
                assert(p(self.servers@[i as int]));
                return Some(i);
            }
            assert(!p(self.servers@[i as int]));
            i = i + 1;
        }
        None
    }

    fn matches_filters(&self, s: &GameServerInfo) -> (r: bool)
        ensures
            r == passes_all(*s, self.filters@),
    {
        let mut i: usize = 0;
        while i < self.filters.len()
            invariant
                i <= self.filters@.len(),
                forall|k: int| 0 <= k < i ==> filter_passes(*s, #[trigger] self.filters@[k]),
            decreases self.filters@.len() - i,
        {
            if !passes(s, &self.filters[i]) {
                return false;
            }
            i = i + 1;
        }
        true
    }

    fn collect<'a>(&'a self, addrs: &Vec<ServerNetAdr>, lan_only: bool, out: &mut Vec<&'a GameServerInfo>)
        ensures
            forall|k: int| 0 <= k < old(out)@.len() ==> final(out)@[k] == old(out)@[k],
            final(out)@.len() >= old(out)@.len(),
            forall|k: int| old(out)@.len() <= k < final(out)@.len() ==> passes_all(*(#[trigger] final(out)@[k]), self.filters()),
    {
        let mut i: usize = 0;
        while i < addrs.len()
            invariant
                i <= addrs@.len(),
                forall|k: int| 0 <= k < old(out)@.len() ==> out@[k] == old(out)@[k],
                out@.len() >= old(out)@.len(),
                forall|k: int| old(out)@.len() <= k < out@.len() ==> passes_all(*(#[trigger] out@[k]), self.filters()),
            decreases addrs@.len() - i,
        {
            let a = addrs[i];
            let lan = (a.ip >> 24u32) == 10 || (a.ip >> 20u32) == 0xAC1 || (a.ip >> 16u32) == 0xC0A8 || (a.ip >> 24u32) == 127;
            if !lan_only || lan {
                if let Some(j) = self.find_server(a) {
                    let info = &self.servers[j].1;
                    if self.matches_filters(info) {
                        out.push(info);
                    }
                }
            }
            i = i + 1;
        }
    }

    /// The known servers of a list that pass every filter: all servers
    /// (or only those on private or loopback addresses, for the LAN list),
    /// friends', favourite or recent servers; spectator lists are empty.
    pub fn request_server_list(&self, server_type: ServerType) -> (r: Vec<&GameServerInfo>)
        ensures
            forall|k: int| 0 <= k < r@.len() ==> passes_all(*(#[trigger] r@[k]), self.filters()),
            server_type == ServerType::Spectator ==> r@.len() == 0,
    {
        let mut out: Vec<&GameServerInfo> = Vec::new();
        match server_type {
            ServerType::Internet | ServerType::Lan => {
                let mut addrs: Vec<ServerNetAdr> = Vec::new();
                let mut i: usize = 0;
                while i < self.servers.len()
                    invariant
                        i <= self.servers@.len(),
                    decreases self.servers@.len() - i,
                {
                    addrs.push(self.servers[i].0);
                    i = i + 1;
                }
                self.collect(&addrs, server_type == ServerType::Lan, &mut out);
            },
            ServerType::Friends => self.collect(&self.friends_servers, false, &mut out),
            ServerType::Favorites => self.collect(&self.favorites, false, &mut out),
            ServerType::History => self.collect(&self.history, false, &mut out),
            ServerType::Spectator => {},
        }
        out
    }

    /// Size of that list.
    pub fn get_server_count(&self, server_type: ServerType) -> (r: usize)
        ensures
            server_type == ServerType::Spectator ==> r == 0,
    {
        self.request_server_list(server_type).len()
    }

    /// Records what server `addr` reports, replacing earlier info.
    pub fn add_server(&mut self, addr: ServerNetAdr, info: GameServerInfo)
        ensures
            final(self).server_of(addr) == Some(info),
            forall|o: ServerNetAdr| o != addr ==> #[trigger] final(self).server_of(o) == old(self).server_of(o),
            final(self).filters() == old(self).filters(),
    {
        let ghost s0 = self.servers@;
        match self.find_server(addr) {
            Some(i) => {
                proof { crate::keyed::lemma_found(s0, server_at(addr), 0); }
                self.servers.set(i, (addr, info));
                proof {
                    crate::keyed::lemma_update_first(s0, server_at(addr), i as int, (addr, info));
                    assert forall|o: ServerNetAdr| o != addr implies #[trigger] self.server_of(o) == old(self).server_of(o) by {
                        crate::keyed::lemma_same_index(s0, self.servers@, server_at(o));
                    }
                }
            },
            None => {
                self.servers.push((addr, info));
                proof {
                    crate::keyed::lemma_push_first(s0, server_at(addr), (addr, info));
                    assert forall|o: ServerNetAdr| o != addr implies #[trigger] self.server_of(o) == old(self).server_of(o) by {
                        crate::keyed::lemma_same_index(s0, self.servers@, server_at(o));
                    }
                }
            },
        }
    }

    /// Adds a favourite once.
    pub fn add_to_favorites(&mut self, addr: ServerNetAdr)
        ensures
            final(self).favorites() == if old(self).favorites().contains(addr) {
                old(self).favorites()
            } else {
                old(self).favorites().push(addr)
            },
    {
        if !contains_addr(&self.favorites, addr) {
            self.favorites.push(addr);
        }
    }

    /// Removes a favourite.
    pub fn remove_from_favorites(&mut self, addr: ServerNetAdr)
        ensures
            final(self).favorites() == drop_addr(old(self).favorites(), addr),
    {
        let kept = without_addr(&self.favorites, addr);
        self.favorites = kept;
    }

    /// Puts `addr` first in the history (once), keeping at most 100 entries.
    pub fn add_to_history(&mut self, addr: ServerNetAdr)
        ensures
            ({
                let h = seq![addr] + drop_addr(old(self).history(), addr);
                final(self).history() == if h.len() > MAX_HISTORY { h.subrange(0, MAX_HISTORY as int) } else { h }
            }),
    {
        let kept = without_addr(&self.history, addr);
        let mut h: Vec<ServerNetAdr> = Vec::new();
        h.push(addr);
        let mut i: usize = 0;
        while i < kept.len()
            invariant
                i <= kept@.len(),
                h@ == seq![addr] + kept@.subrange(0, i as int),
            decreases kept@.len() - i,
        {
            h.push(kept[i]);
            i = i + 1;
            assert(h@ =~= seq![addr] + kept@.subrange(0, i as int));
        }
        assert(kept@.subrange(0, kept@.len() as int) =~= kept@);
        if h.len() > MAX_HISTORY {
            h.truncate(MAX_HISTORY);
        }
        self.history = h;
    }

    /// Adds a server a friend plays on, once.
    pub fn add_friend_server(&mut self, addr: ServerNetAdr)
        ensures
            final(self).friends() == if old(self).friends().contains(addr) {
                old(self).friends()
            } else {
                old(self).friends().push(addr)
            },
    {
        if !contains_addr(&self.friends_servers, addr) {
            self.friends_servers.push(addr);
        }
    }

    /// The challenge of `addr`: the one handed out before, else the next
    /// number, which is then recorded.
    pub fn get_challenge(&mut self, addr: ServerNetAdr) -> (r: u32)
        requires
            old(self).spec_next_challenge() < u32::MAX,
        ensures
            ({
                let i = first_index(old(self).challenges(), challenge_at(addr));
                &&& i >= 0 ==> r == old(self).challenges()[i].1 && final(self).challenges() == old(self).challenges()
                    && final(self).spec_next_challenge() == old(self).spec_next_challenge()
                &&& i < 0 ==> r == old(self).spec_next_challenge()
                    && final(self).spec_next_challenge() == old(self).spec_next_challenge() + 1
                    && final(self).challenges() == old(self).challenges().push((addr, r))
            }),
    {
        let ghost p = challenge_at(addr);
        let mut i: usize = 0;
        while i < self.challenges.len()
            invariant
                i <= self.challenges@.len(),
                p == challenge_at(addr),
                self.challenges == old(self).challenges,
                self.next_challenge == old(self).next_challenge,
                index_from(self.challenges@, p, i as int) == first_index(self.challenges@, p),
            decreases self.challenges@.len() - i,
        {
            if self.challenges[i].0 == addr {
                assert(p(self.challenges@[i as int]));
                return self.challenges[i].1;
            }
            assert(!p(self.challenges@[i as int]));
            i = i + 1;
        }
        let c = self.next_challenge;
        self.next_challenge = self.next_challenge + 1;
        self.challenges.push((addr, c));
        c
    }

    /// The ping of server `addr`.
    pub fn ping_server(&self, addr: &ServerNetAdr) -> (r: Option<u32>)
        ensures
            r == match self.server_of(*addr) {
                Some(s) => Some(s.ping),
                None => None,
            },
    {
        match self.find_server(*addr) {
            Some(i) => Some(self.servers[i].1.ping),
            None => None,
        }
    }
}

/// Whether a challenge entry is for `a`.
pub open spec fn challenge_at(a: ServerNetAdr) -> spec_fn((ServerNetAdr, u32)) -> bool {
    |e: (ServerNetAdr, u32)| e.0 == a
}

/// `s` without the occurrences of `a`, in order.
pub open spec fn drop_addr(s: Seq<ServerNetAdr>, a: ServerNetAdr) -> Seq<ServerNetAdr>
    decreases s.len(),
{
    if s.len() == 0 {
        s
    } else if s.last() == a {
        drop_addr(s.drop_last(), a)
    } else {
        drop_addr(s.drop_last(), a).push(s.last())
    }
}

fn contains_addr(v: &Vec<ServerNetAdr>, a: ServerNetAdr) -> (r: bool)
    ensures
        r == v@.contains(a),
{
    let mut i: usize = 0;
    while i < v.len()
        invariant
            i <= v@.len(),
            forall|k: int| 0 <= k < i ==> v@[k] != a,
        decreases v@.len() - i,
    {
        if v[i] == a {
            assert(v@[i as int] == a);
            return true;
        }
        i = i + 1;
    }
    false
}

fn without_addr(v: &Vec<ServerNetAdr>, a: ServerNetAdr) -> (r: Vec<ServerNetAdr>)
    ensures
        r@ == drop_addr(v@, a),
{
    let mut out: Vec<ServerNetAdr> = Vec::new();
    let mut i: usize = 0;
    while i < v.len()
        invariant
            i <= v@.len(),
            out@ == drop_addr(v@.take(i as int), a),
        decreases v@.len() - i,
    {
        if v[i] != a {
            out.push(v[i]);
        }
        assert(v@.take(i + 1).drop_last() =~= v@.take(i as int));
        i = i + 1;
    }
    assert(v@.take(v@.len() as int) =~= v@);
    out
}

/// The rules a server reported.
pub struct ServerRules {
    rules: Vec<ServerRule>,
}

/// Whether a rule is named `n`.
pub open spec fn rule_named(n: Seq<char>) -> spec_fn(ServerRule) -> bool {
    |r: ServerRule| r.name@ == n
}

impl ServerRules {
    /// The rules, in order.
    pub closed spec fn spec_rules(&self) -> Seq<ServerRule> {
        self.rules@
    }

    /// No rules.
    pub fn new() -> (r: Self)
        ensures
            r.spec_rules().len() == 0,
    {
        ServerRules { rules: Vec::new() }
    }

    /// Appends a rule.
    pub fn add_rule(&mut self, name: &str, value: &str)
        ensures
            final(self).spec_rules().len() == old(self).spec_rules().len() + 1,
            final(self).spec_rules().subrange(0, old(self).spec_rules().len() as int) == old(self).spec_rules(),
            final(self).spec_rules().last().name@ == name@ && final(self).spec_rules().last().value@ == value@,
    {
        self.rules.push(ServerRule { name: name.to_owned(), value: value.to_owned() });
        assert(self.rules@.subrange(0, old(self).rules@.len() as int) =~= old(self).rules@);
    }

    /// Number of rules.
    pub fn count(&self) -> (r: usize)
        ensures
            r == self.spec_rules().len(),
    {
        self.rules.len()
    }

    /// The rule at `index`.
    pub fn get(&self, index: usize) -> (r: Option<&ServerRule>)
        ensures
            index < self.spec_rules().len() ==> r == Some(&self.spec_rules()[index as int]),
            index >= self.spec_rules().len() ==> r is None,
    {
        if index < self.rules.len() {
            Some(&self.rules[index])
        } else {
            None
        }
    }

    /// The first rule named `name`.
    pub fn find(&self, name: &str) -> (r: Option<&ServerRule>)
        ensures
            ({
                let i = first_index(self.spec_rules(), rule_named(name@));
                &&& i < 0 ==> r is None
                &&& i >= 0 ==> r == Some(&self.spec_rules()[i])
            }),
    {
        let key = name.to_owned();
        let ghost p = rule_named(name@);
        let mut i: usize = 0;
        while i < self.rules.len()
            invariant
                i <= self.rules@.len(),
                key@ == name@,
                p == rule_named(name@),
                index_from(self.rules@, p, i as int) == first_index(self.rules@, p),
            decreases self.rules@.len() - i,
        {
            if self.rules[i].name == key {
                assert(p(self.rules@[i as int]));
                return Some(&self.rules[i]);
            }
            assert(!p(self.rules@[i as int]));
            i = i + 1;
        }
        None
    }
}

impl Default for ServerRules {
    /// No rules.
    fn default() -> (r: Self)
        ensures
            r.spec_rules().len() == 0,
    {
        ServerRules::new()
    }
}

} // verus!
