//! 64-bit Steam ids: account id (bits 0-31), instance (bits 32-51), account
//! type (bits 52-55) and universe (bits 56-63).
use vstd::prelude::*;

use crate::text::{
    chars_of, decimal, trim_chars, trim_ws, fields_from, parse_nat, parse_nat_range, push_chars, push_decimal, split_fields,
    string_from,
};

verus! {

/// Universe of an id.
#[derive(Debug, Clone, Copy, PartialEq, Eq, Hash, Structural)]
pub enum Universe {
    Invalid,
    Public,
    Beta,
    Internal,
    Dev,
}

impl Universe {
    /// The universe's number.
    pub open spec fn spec_as_u8(self) -> u8 {
        match self {
            Universe::Invalid => 0,
            Universe::Public => 1,
            Universe::Beta => 2,
            Universe::Internal => 3,
            Universe::Dev => 4,
        }
    }

    /// The universe's number.
    pub fn as_u8(self) -> (r: u8)
        ensures
            r == self.spec_as_u8(),
    {
        match self {
            Universe::Invalid => 0,
            Universe::Public => 1,
            Universe::Beta => 2,
            Universe::Internal => 3,
            Universe::Dev => 4,
        }
    }

    /// The universe with number `v`, if there is one.
    pub fn from_u8(v: u8) -> (r: Option<Self>)
        ensures
            v <= 4 ==> (r matches Some(u) && u.spec_as_u8() == v),
            v > 4 ==> r is None,
    {
        match v {
            0 => Some(Universe::Invalid),
            1 => Some(Universe::Public),
            2 => Some(Universe::Beta),
            3 => Some(Universe::Internal),
            4 => Some(Universe::Dev),
            _ => None,
        }
    }
}

/// Kind of account.
#[derive(Debug, Clone, Copy, PartialEq, Eq, Hash, Structural)]
pub enum AccountType {
    Invalid,
    Individual,
    Multiseat,
    GameServer,
    AnonGameServer,
    Pending,
    ContentServer,
    Clan,
    Chat,
    ConsoleUser,
    AnonUser,
}

impl AccountType {
    /// The type's number.
    pub open spec fn spec_as_u8(self) -> u8 {
        match self {
            AccountType::Invalid => 0,
            AccountType::Individual => 1,
            AccountType::Multiseat => 2,
            AccountType::GameServer => 3,
            AccountType::AnonGameServer => 4,
            AccountType::Pending => 5,
            AccountType::ContentServer => 6,
            AccountType::Clan => 7,
            AccountType::Chat => 8,
            AccountType::ConsoleUser => 9,
            AccountType::AnonUser => 10,
        }
    }

    /// The type's number.
    pub fn as_u8(self) -> (r: u8)
        ensures
            r == self.spec_as_u8(),
    {
        match self {
            AccountType::Invalid => 0,
            AccountType::Individual => 1,
            AccountType::Multiseat => 2,
            AccountType::GameServer => 3,
            AccountType::AnonGameServer => 4,
            AccountType::Pending => 5,
            AccountType::ContentServer => 6,
            AccountType::Clan => 7,
            AccountType::Chat => 8,
            AccountType::ConsoleUser => 9,
            AccountType::AnonUser => 10,
        }
    }

    /// The type with number `v`, if there is one.
    pub fn from_u8(v: u8) -> (r: Option<Self>)
        ensures
            v <= 10 ==> (r matches Some(t) && t.spec_as_u8() == v),
            v > 10 ==> r is None,
    {
        match v {
            0 => Some(AccountType::Invalid),
            1 => Some(AccountType::Individual),
            2 => Some(AccountType::Multiseat),
            3 => Some(AccountType::GameServer),
            4 => Some(AccountType::AnonGameServer),
            5 => Some(AccountType::Pending),
            6 => Some(AccountType::ContentServer),
            7 => Some(AccountType::Clan),
            8 => Some(AccountType::Chat),
            9 => Some(AccountType::ConsoleUser),
            10 => Some(AccountType::AnonUser),
            _ => None,
        }
    }

    /// The letter of the type in the bracketed text form.
    pub open spec fn spec_type_char(self) -> char {
        match self {
            AccountType::Invalid => 'I',
            AccountType::Individual => 'U',
            AccountType::Multiseat => 'M',
            AccountType::GameServer => 'G',
            AccountType::AnonGameServer => 'A',
            AccountType::Pending => 'P',
            AccountType::ContentServer => 'C',
            AccountType::Clan => 'g',
            AccountType::Chat => 'T',
            AccountType::ConsoleUser => 'U',
            AccountType::AnonUser => 'a',
        }
    }

    /// The letter of the type in the bracketed text form.
    pub fn type_char(&self) -> (r: char)
        ensures
            r == self.spec_type_char(),
    {
        match self {
            AccountType::Invalid => 'I',
            AccountType::Individual => 'U',
            AccountType::Multiseat => 'M',
            AccountType::GameServer => 'G',
            AccountType::AnonGameServer => 'A',
            AccountType::Pending => 'P',
            AccountType::ContentServer => 'C',
            AccountType::Clan => 'g',
            AccountType::Chat => 'T',
            AccountType::ConsoleUser => 'U',
            AccountType::AnonUser => 'a',
        }
    }

    /// The type that letter `c` stands for; `T`, `c` and `L` all read as a
    /// chat.
    pub fn from_char(c: char) -> (r: Option<Self>)
        ensures
            r == match c {
                'I' => Some(AccountType::Invalid),
                'U' => Some(AccountType::Individual),
                'M' => Some(AccountType::Multiseat),
                'G' => Some(AccountType::GameServer),
                'A' => Some(AccountType::AnonGameServer),
                'P' => Some(AccountType::Pending),
                'C' => Some(AccountType::ContentServer),
                'g' => Some(AccountType::Clan),
                'T' | 'c' | 'L' => Some(AccountType::Chat),
                'a' => Some(AccountType::AnonUser),
                _ => None,
            },
    {
        match c {
            'I' => Some(AccountType::Invalid),
            'U' => Some(AccountType::Individual),
            'M' => Some(AccountType::Multiseat),
            'G' => Some(AccountType::GameServer),
            'A' => Some(AccountType::AnonGameServer),
            'P' => Some(AccountType::Pending),
            'C' => Some(AccountType::ContentServer),
            'g' => Some(AccountType::Clan),
            'T' | 'c' | 'L' => Some(AccountType::Chat),
            'a' => Some(AccountType::AnonUser),
            _ => None,
        }
    }
}

/// Instance numbers.
#[derive(Debug, Clone, Copy, PartialEq, Eq, Hash, Structural)]
pub enum Instance {
    All,
    Desktop,
    Console,
    Web,
}

impl Instance {
    /// The instance's number.
    pub open spec fn spec_as_u32(self) -> u32 {
        match self {
            Instance::All => 0,
            Instance::Desktop => 1,
            Instance::Console => 2,
            Instance::Web => 4,
        }
    }

    /// The instance's number.
    pub fn as_u32(self) -> (r: u32)
        ensures
            r == self.spec_as_u32(),
    {
        match self {
            Instance::All => 0,
            Instance::Desktop => 1,
            Instance::Console => 2,
            Instance::Web => 4,
        }
    }
}

/// A 64-bit Steam id.
#[derive(Debug, Clone, Copy, PartialEq, Eq, Hash, Structural)]
pub struct SteamId(pub u64);

/// The nil id.
pub const STEAM_ID_NIL: u64 = 0;

/// Bits 0-31.
pub open spec fn account_bits(v: u64) -> u32 {
    (v & 0xFFFF_FFFFu64) as u32
}

/// Bits 32-51.
pub open spec fn instance_bits(v: u64) -> u32 {
    ((v >> 32u64) & 0xFFFFFu64) as u32
}

/// Bits 52-55.
pub open spec fn type_bits(v: u64) -> u8 {
    ((v >> 52u64) & 0xFu64) as u8
}

/// Bits 56-63.
pub open spec fn universe_bits(v: u64) -> u8 {
    ((v >> 56u64) & 0xFFu64) as u8
}

/// The id assembled from its parts (the instance cut to 20 bits).
pub open spec fn compose(account_id: u32, instance: u32, t: u8, u: u8) -> u64 {
    (account_id as u64) | (((instance & 0xFFFFFu32) as u64) << 32u64) | ((t as u64) << 52u64) | ((u
        as u64) << 56u64)
}

/// The account type of type number `t` (`Invalid` for an unknown number).
pub open spec fn type_of(t: u8) -> AccountType {
    match t {
        1 => AccountType::Individual,
        2 => AccountType::Multiseat,
        3 => AccountType::GameServer,
        4 => AccountType::AnonGameServer,
        5 => AccountType::Pending,
        6 => AccountType::ContentServer,
        7 => AccountType::Clan,
        8 => AccountType::Chat,
        9 => AccountType::ConsoleUser,
        10 => AccountType::AnonUser,
        _ => AccountType::Invalid,
    }
}

/// The universe of universe number `u` (`Invalid` for an unknown number).
pub open spec fn universe_of(u: u8) -> Universe {
    match u {
        1 => Universe::Public,
        2 => Universe::Beta,
        3 => Universe::Internal,
        4 => Universe::Dev,
        _ => Universe::Invalid,
    }
}

impl SteamId {
    /// The nil id.
    pub fn nil() -> (r: Self)
        ensures
            r.0 == 0,
    {
        SteamId(STEAM_ID_NIL)
    }

    /// The id with raw value `id`.
    pub fn from_u64(id: u64) -> (r: Self)
        ensures
            r.0 == id,
    {
        SteamId(id)
    }

    /// The raw value.
    pub fn as_u64(&self) -> (r: u64)
        ensures
            r == self.0,
    {
        self.0
    }

    /// The account id: the low 32 bits.
    pub fn account_id(&self) -> (r: u32)
        ensures
            r == account_bits(self.0),
    {
        (self.0 & 0xFFFF_FFFFu64) as u32
    }

    /// The instance: bits 32-51.
    pub fn instance(&self) -> (r: u32)
        ensures
            r == instance_bits(self.0),
    {
        ((self.0 >> 32u64) & 0xFFFFFu64) as u32
    }

    /// The account type: bits 52-55, `Invalid` for an unknown number.
    pub fn account_type(&self) -> (r: AccountType)
        ensures
            r == type_of(type_bits(self.0)),
    {
        let t = ((self.0 >> 52u64) & 0xFu64) as u8;
        match AccountType::from_u8(t) {
            Some(a) => a,
            None => AccountType::Invalid,
        }
    }

    /// The universe: bits 56-63, `Invalid` for an unknown number.
    pub fn universe(&self) -> (r: Universe)
        ensures
            r == universe_of(universe_bits(self.0)),
    {
        let u = ((self.0 >> 56u64) & 0xFFu64) as u8;
        match Universe::from_u8(u) {
            Some(x) => x,
            None => Universe::Invalid,
        }
    }

    /// Non-nil, with a known account type and universe.
    pub fn is_valid(&self) -> (r: bool)
        ensures
            r == (self.0 != 0 && type_of(type_bits(self.0)) != AccountType::Invalid
                && universe_of(universe_bits(self.0)) != Universe::Invalid),
    {
        self.0 != 0 && self.account_type() != AccountType::Invalid && self.universe() != Universe::Invalid
    }

    /// An individual user's account.
    pub fn is_individual(&self) -> (r: bool)
        ensures
            r == (type_of(type_bits(self.0)) == AccountType::Individual),
    {
        self.account_type() == AccountType::Individual
    }

    /// A game server, anonymous or not.
    pub fn is_game_server(&self) -> (r: bool)
        ensures
            r == (type_of(type_bits(self.0)) == AccountType::GameServer || type_of(type_bits(self.0))
                == AccountType::AnonGameServer),
    {
        let t = self.account_type();
        t == AccountType::GameServer || t == AccountType::AnonGameServer
    }

    /// A group.
    pub fn is_clan(&self) -> (r: bool)
        ensures
            r == (type_of(type_bits(self.0)) == AccountType::Clan),
    {
        self.account_type() == AccountType::Clan
    }

    /// A lobby: a chat whose instance has the lobby bit (0x40000).
    pub fn is_lobby(&self) -> (r: bool)
        ensures
            r == (type_of(type_bits(self.0)) == AccountType::Chat && instance_bits(self.0) & 0x40000u32 != 0),
    {
        self.account_type() == AccountType::Chat && (self.instance() & 0x40000u32) != 0
    }

    /// The id with the given parts; the instance is cut to 20 bits.
    pub fn from_parts(account_id: u32, instance: u32, account_type: AccountType, universe: Universe) -> (r: Self)
        ensures
            r.0 == compose(account_id, instance, account_type.spec_as_u8(), universe.spec_as_u8()),
            account_bits(r.0) == account_id,
            instance_bits(r.0) == instance & 0xFFFFFu32,
            type_bits(r.0) == account_type.spec_as_u8(),
            universe_bits(r.0) == universe.spec_as_u8(),
    {
        let t = account_type.as_u8();
        let u = universe.as_u8();
        let id: u64 = (account_id as u64) | (((instance & 0xFFFFFu32) as u64) << 32u64) | ((t as u64) << 52u64)
            | ((u as u64) << 56u64);
        proof { lemma_parts_round_trip(account_id, instance, t, u); }
        SteamId(id)
    }

    /// A desktop individual account in the public universe.
    pub fn from_account_id(account_id: u32) -> (r: Self)
        ensures
            r.0 == compose(account_id, 1, 1, 1),
            account_bits(r.0) == account_id,
            instance_bits(r.0) == 1,
            type_of(type_bits(r.0)) == AccountType::Individual,
            universe_of(universe_bits(r.0)) == Universe::Public,
    {
        assert(1u32 & 0xFFFFFu32 == 1u32) by (bit_vector);
        Self::from_parts(account_id, Instance::Desktop.as_u32(), AccountType::Individual, Universe::Public)
    }
}

/// Why a text was not read as an id.
#[derive(Debug, Clone, Copy, PartialEq, Eq, Structural)]
pub enum SteamIdParseError {
    InvalidFormat,
    InvalidUniverse,
    InvalidAccountType,
}

/// `STEAM_`.
pub open spec fn steam_prefix() -> Seq<char> {
    seq!['S', 'T', 'E', 'A', 'M', '_']
}

/// The account type that letter `c` stands for.
pub open spec fn char_type(c: char) -> Option<AccountType> {
    match c {
        'I' => Some(AccountType::Invalid),
        'U' => Some(AccountType::Individual),
        'M' => Some(AccountType::Multiseat),
        'G' => Some(AccountType::GameServer),
        'A' => Some(AccountType::AnonGameServer),
        'P' => Some(AccountType::Pending),
        'C' => Some(AccountType::ContentServer),
        'g' => Some(AccountType::Clan),
        'T' | 'c' | 'L' => Some(AccountType::Chat),
        'a' => Some(AccountType::AnonUser),
        _ => None,
    }
}

/// The legacy text form `STEAM_X:Y:Z`: X the universe (0 for public), Y
/// the low bit of the account id, Z the rest of it.
pub open spec fn steam2_text(v: u64) -> Seq<char> {
    let u = universe_of(universe_bits(v));
    let x: nat = if u == Universe::Public { 0 } else { u.spec_as_u8() as nat };
    let a = account_bits(v);
    steam_prefix() + decimal(x) + seq![':'] + decimal((a % 2) as nat) + seq![':'] + decimal((a / 2) as nat)
}

/// The bracketed text form `[T:U:A]`, or `[T:U:A:I]` for an instance other
/// than 0 and 1.
pub open spec fn steam3_text(v: u64) -> Seq<char> {
    let i = instance_bits(v);
    seq!['[', type_of(type_bits(v)).spec_type_char(), ':'] + decimal(universe_of(universe_bits(v)).spec_as_u8() as nat)
        + seq![':'] + decimal(account_bits(v) as nat) + (if i == 0 || i == 1 {
        Seq::empty()
    } else {
        seq![':'] + decimal(i as nat)
    }) + seq![']']
}

/// The field `(from, to)` of `s`.
pub open spec fn field(s: Seq<char>, f: (int, int)) -> Seq<char> {
    s.subrange(f.0, f.1)
}

/// The id that the legacy form `s` spells, if it is one.
pub open spec fn parse2_spec(s: Seq<char>) -> Option<SteamId> {
    if !(s.len() >= 6 && s.subrange(0, 6) == steam_prefix()) {
        None
    } else {
        let f = fields_from(s, 6, s.len() as int);
        if f.len() != 3 {
            None
        } else {
            match (parse_nat(field(s, f[0]), 255), parse_nat(field(s, f[1]), 4294967295), parse_nat(field(s, f[2]), 4294967295)) {
                (Some(x), Some(y), Some(z)) => if y > 1 || z * 2 + y > 4294967295 || x > 4 {
                    None
                } else {
                    let u: u8 = if x == 0 { 1 } else { x as u8 };
                    Some(SteamId(compose((z * 2 + y) as u32, 1, 1, u)))
                },
                _ => None,
            }
        }
    }
}

/// The id that the bracketed form `s` spells, if it is one.
pub open spec fn parse3_spec(s: Seq<char>) -> Option<SteamId> {
    if !(s.len() >= 2 && s[0] == '[' && s.last() == ']') {
        None
    } else {
        let f = fields_from(s, 1, s.len() - 1);
        if f.len() < 3 || f.len() > 4 || f[0].0 >= f[0].1 {
            None
        } else {
            let inst = if f.len() == 4 { parse_nat(field(s, f[3]), 4294967295) } else { Some(1nat) };
            match (char_type(s[f[0].0]), parse_nat(field(s, f[1]), 255), parse_nat(field(s, f[2]), 4294967295), inst) {
                (Some(t), Some(u), Some(a), Some(i)) => if u > 4 {
                    None
                } else {
                    Some(SteamId(compose(a as u32, i as u32, t.spec_as_u8(), u as u8)))
                },
                _ => None,
            }
        }
    }
}

/// Whether `s` begins with `STEAM_`.
pub open spec fn has_steam_prefix(s: Seq<char>) -> bool {
    s.len() >= 6 && s.subrange(0, 6) == steam_prefix()
}

/// What reading the text `s` gives: a raw 64-bit number, else the legacy
/// form, else the bracketed form (after trimming whitespace).
pub open spec fn parse_text_spec(s: Seq<char>) -> Result<SteamId, SteamIdParseError> {
    let t = trim_ws(s);
    match parse_nat(t, 18446744073709551615) {
        Some(v) => Ok(SteamId(v as u64)),
        None => if has_steam_prefix(t) {
            match parse2_spec(t) {
                Some(id) => Ok(id),
                None => Err(SteamIdParseError::InvalidFormat),
            }
        } else if t.len() >= 2 && t[0] == '[' && t.last() == ']' {
            match parse3_spec(t) {
                Some(id) => Ok(id),
                None => Err(SteamIdParseError::InvalidFormat),
            }
        } else {
            Err(SteamIdParseError::InvalidFormat)
        },
    }
}

fn has_prefix_chars(c: &Vec<char>) -> (r: bool)
    ensures
        r == has_steam_prefix(c@),
{
    let r = c.len() >= 6 && c[0] == 'S' && c[1] == 'T' && c[2] == 'E' && c[3] == 'A' && c[4] == 'M' && c[5] == '_';
    proof {
        if c@.len() >= 6 {
            if r {
                assert(c@.subrange(0, 6) =~= steam_prefix());
            } else {
                assert(c@.subrange(0, 6) != steam_prefix()) by {
                    let p = c@.subrange(0, 6);
                    if p == steam_prefix() {
                        assert(p[0] == 'S' && p[1] == 'T' && p[2] == 'E' && p[3] == 'A' && p[4] == 'M' && p[5] == '_');
                    }
                }
            }
        }
    }
    r
}

impl SteamId {
    /// The legacy text form.
    pub fn to_steam2(&self) -> (r: String)
        ensures
            r@ == steam2_text(self.0),
    {
        let a = self.account_id();
        let y = a % 2;
        let z = a / 2;
        let x: u32 = if self.universe() == Universe::Public { 0 } else { self.universe().as_u8() as u32 };
        let mut v: Vec<char> = Vec::new();
        let p: Vec<char> = vec!['S', 'T', 'E', 'A', 'M', '_'];
        assert(p@ =~= steam_prefix());
        push_chars(&mut v, &p);
        push_decimal(&mut v, x);
        v.push(':');
        push_decimal(&mut v, y);
        v.push(':');
        push_decimal(&mut v, z);
        assert(v@ =~= steam2_text(self.0));
        string_from(&v)
    }

    /// The bracketed text form.
    pub fn to_steam3(&self) -> (r: String)
        ensures
            r@ == steam3_text(self.0),
    {
        let t = self.account_type().type_char();
        let u = self.universe().as_u8() as u32;
        let a = self.account_id();
        let i = self.instance();
        let mut v: Vec<char> = Vec::new();
        v.push('[');
        v.push(t);
        v.push(':');
        push_decimal(&mut v, u);
        v.push(':');
        push_decimal(&mut v, a);
        if !(i == 1 || i == 0) {
            v.push(':');
            push_decimal(&mut v, i);
        }
        v.push(']');
        assert(v@ =~= steam3_text(self.0));
        string_from(&v)
    }

    fn parse2_chars(c: &Vec<char>) -> (r: Option<SteamId>)
        ensures
            r == parse2_spec(c@),
    {
        if !has_prefix_chars(c) {
            return None;
        }
        let f = split_fields(c, 6, c.len());
        if f.len() != 3 {
            return None;
        }
        let x = parse_nat_range(c, f[0].0, f[0].1, 255);
        let y = parse_nat_range(c, f[1].0, f[1].1, 4294967295);
        let z = parse_nat_range(c, f[2].0, f[2].1, 4294967295);
        match (x, y, z) {
            (Some(x), Some(y), Some(z)) => {
                if y > 1 || z * 2 + y > 4294967295 || x > 4 {
                    return None;
                }
                let u: u8 = if x == 0 { 1 } else { x as u8 };
                let universe = match Universe::from_u8(u) {
                    Some(un) => un,
                    None => return None,
                };
                Some(SteamId::from_parts((z * 2 + y) as u32, 1, AccountType::Individual, universe))
            },
            _ => None,
        }
    }

    /// Reads the legacy form `STEAM_X:Y:Z`.
    pub fn parse_steam2(s: &str) -> (r: Option<SteamId>)
        ensures
            r == parse2_spec(s@),
    {
        let c = chars_of(s);
        Self::parse2_chars(&c)
    }

    fn parse3_chars(c: &Vec<char>) -> (r: Option<SteamId>)
        ensures
            r == parse3_spec(c@),
    {
        let n = c.len();
        if !(n >= 2 && c[0] == '[' && c[n - 1] == ']') {
            return None;
        }
        let f = split_fields(c, 1, n - 1);
        if f.len() < 3 || f.len() > 4 || f[0].0 >= f[0].1 {
            return None;
        }
        let t = match AccountType::from_char(c[f[0].0]) {
            Some(t) => t,
            None => return None,
        };
        let u = match parse_nat_range(c, f[1].0, f[1].1, 255) {
            Some(u) => u,
            None => return None,
        };
        let a = match parse_nat_range(c, f[2].0, f[2].1, 4294967295) {
            Some(a) => a,
            None => return None,
        };
        let i: u64 = if f.len() == 4 {
            match parse_nat_range(c, f[3].0, f[3].1, 4294967295) {
                Some(i) => i,
                None => return None,
            }
        } else {
            1
        };
        if u > 4 {
            return None;
        }
        let universe = match Universe::from_u8(u as u8) {
            Some(un) => un,
            None => return None,
        };
        let r = SteamId::from_parts(a as u32, i as u32, t, universe);
        Some(r)
    }

    /// Reads the bracketed form `[T:U:A]` or `[T:U:A:I]`.
    pub fn parse_steam3(s: &str) -> (r: Option<SteamId>)
        ensures
            r == parse3_spec(s@),
    {
        let c = chars_of(s);
        Self::parse3_chars(&c)
    }

    /// Reads any of the three forms: a raw number, legacy or bracketed.
    pub fn parse_text(s: &str) -> (r: Result<SteamId, SteamIdParseError>)
        ensures
            r == parse_text_spec(s@),
    {
        let all = chars_of(s);
        let c = trim_chars(&all);
        assert(c@.subrange(0, c@.len() as int) =~= c@);
        if let Some(v) = parse_nat_range(&c, 0, c.len(), u64::MAX) {
            return Ok(SteamId(v));
        }
        if has_prefix_chars(&c) {
            return match Self::parse2_chars(&c) {
                Some(id) => Ok(id),
                None => Err(SteamIdParseError::InvalidFormat),
            };
        }
        let n = c.len();
        if n >= 2 && c[0] == '[' && c[n - 1] == ']' {
            return match Self::parse3_chars(&c) {
                Some(id) => Ok(id),
                None => Err(SteamIdParseError::InvalidFormat),
            };
        }
        Err(SteamIdParseError::InvalidFormat)
    }
}

impl std::str::FromStr for SteamId {
    type Err = SteamIdParseError;

    fn from_str(s: &str) -> Result<SteamId, SteamIdParseError> {
        SteamId::parse_text(s)
    }
}

/// Assembling an id from parts and reading them back gives the parts (the
/// instance cut to 20 bits, the type to 4).
pub proof fn lemma_parts_round_trip(account_id: u32, instance: u32, t: u8, u: u8)
    requires
        t < 16,
    ensures
        account_bits(compose(account_id, instance, t, u)) == account_id,
        instance_bits(compose(account_id, instance, t, u)) == instance & 0xFFFFFu32,
        type_bits(compose(account_id, instance, t, u)) == t,
        universe_bits(compose(account_id, instance, t, u)) == u,
{
    assert(((((account_id as u64) | (((instance & 0xFFFFFu32) as u64) << 32u64) | ((t as u64) << 52u64)
        | ((u as u64) << 56u64)) & 0xFFFF_FFFFu64) as u32) == account_id) by (bit_vector);
    assert((((((account_id as u64) | (((instance & 0xFFFFFu32) as u64) << 32u64) | ((t as u64) << 52u64)
        | ((u as u64) << 56u64)) >> 32u64) & 0xFFFFFu64) as u32) == instance & 0xFFFFFu32) by (bit_vector);
    assert((((((account_id as u64) | (((instance & 0xFFFFFu32) as u64) << 32u64) | ((t as u64) << 52u64)
        | ((u as u64) << 56u64)) >> 52u64) & 0xFu64) as u8) == t) by (bit_vector)
        requires
            t < 16,
    ;
    assert((((((account_id as u64) | (((instance & 0xFFFFFu32) as u64) << 32u64) | ((t as u64) << 52u64)
        | ((u as u64) << 56u64)) >> 56u64) & 0xFFu64) as u8) == u) by (bit_vector)
        requires
            t < 16,
    ;
}

} // verus!
