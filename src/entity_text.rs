//! The entity lump: brace-delimited blocks of `"key" "value"` lines.
//!
//! The text is handled as bytes. Lines end at `\n`; each line is trimmed of
//! ASCII whitespace before it is looked at.
use vstd::prelude::*;

use crate::bytes_util::{bytes_eq, copy_range};

verus! {

/// One entity of the lump: its class and its properties in first-seen order,
/// each key once.
#[derive(Debug, Clone)]
pub struct BspEntity {
    pub classname: Vec<u8>,
    pub properties: Vec<(Vec<u8>, Vec<u8>)>,
}

/// An entity as values.
pub struct EntityView {
    pub classname: Seq<u8>,
    pub properties: Seq<(Seq<u8>, Seq<u8>)>,
}

/// The properties as values.
pub open spec fn props_view(p: Seq<(Vec<u8>, Vec<u8>)>) -> Seq<(Seq<u8>, Seq<u8>)> {
    p.map_values(|kv: (Vec<u8>, Vec<u8>)| (kv.0@, kv.1@))
}

impl View for BspEntity {
    type V = EntityView;

    open spec fn view(&self) -> EntityView {
        EntityView { classname: self.classname@, properties: props_view(self.properties@) }
    }
}

/// The entities as values.
pub open spec fn entities_view(s: Seq<BspEntity>) -> Seq<EntityView> {
    s.map_values(|e: BspEntity| e@)
}

/// ASCII whitespace: space, tab, line feed, vertical tab, form feed, carriage return.
pub open spec fn is_space(b: u8) -> bool {
    b == 32 || (9 <= b && b <= 13)
}

/// First index at or after `i` that is not whitespace (or the length).
pub open spec fn skip_spaces(s: Seq<u8>, i: int) -> int
    decreases s.len() - i,
{
    if 0 <= i < s.len() && is_space(s[i]) {
        skip_spaces(s, i + 1)
    } else {
        i
    }
}

/// Moves `j` back over whitespace, not below `lo`.
pub open spec fn back_spaces(s: Seq<u8>, lo: int, j: int) -> int
    decreases j - lo,
{
    if lo < j && j <= s.len() && is_space(s[j - 1]) {
        back_spaces(s, lo, j - 1)
    } else {
        j
    }
}

/// `s` without leading and trailing whitespace.
pub open spec fn trim(s: Seq<u8>) -> Seq<u8> {
    let a = skip_spaces(s, 0);
    s.subrange(a, back_spaces(s, a, s.len() as int))
}

/// Index of the first `"` at or after `i`, or -1.
pub open spec fn next_quote(s: Seq<u8>, i: int) -> int
    decreases s.len() - i,
{
    if i < 0 || i >= s.len() {
        -1
    } else if s[i] == 34 {
        i
    } else {
        next_quote(s, i + 1)
    }
}

/// The key and value of a `"key" "value"` line: the text between the first
/// and second quote, and between the third and fourth.
pub open spec fn kv_of(s: Seq<u8>) -> Option<(Seq<u8>, Seq<u8>)> {
    let q1 = next_quote(s, 0);
    let q2 = next_quote(s, q1 + 1);
    let q3 = next_quote(s, q2 + 1);
    let q4 = next_quote(s, q3 + 1);
    if q1 < 0 || q2 < 0 || q3 < 0 || q4 < 0 {
        None
    } else {
        Some((s.subrange(q1 + 1, q2), s.subrange(q3 + 1, q4)))
    }
}

/// Index of the property with key `k`, searching from `i`.
pub open spec fn key_index(p: Seq<(Seq<u8>, Seq<u8>)>, k: Seq<u8>, i: int) -> int
    decreases p.len() - i,
{
    if i < 0 || i >= p.len() {
        -1
    } else if p[i].0 == k {
        i
    } else {
        key_index(p, k, i + 1)
    }
}

/// Sets property `k` to `v`: replaces the value of an existing key, or
/// appends the pair.
pub open spec fn prop_insert(p: Seq<(Seq<u8>, Seq<u8>)>, k: Seq<u8>, v: Seq<u8>) -> Seq<
    (Seq<u8>, Seq<u8>),
> {
    let i = key_index(p, k, 0);
    if i < 0 {
        p.push((k, v))
    } else {
        p.update(i, (k, v))
    }
}

/// The bytes of `classname`.
pub open spec fn classname_key() -> Seq<u8> {
    seq![99u8, 108u8, 97u8, 115u8, 115u8, 110u8, 97u8, 109u8, 101u8]
}

/// An entity with one more property line applied.
pub open spec fn apply_kv(e: EntityView, k: Seq<u8>, v: Seq<u8>) -> EntityView {
    EntityView {
        classname: if k == classname_key() { v } else { e.classname },
        properties: prop_insert(e.properties, k, v),
    }
}

/// The empty entity a `{` line opens.
pub open spec fn empty_entity() -> EntityView {
    EntityView { classname: Seq::empty(), properties: Seq::empty() }
}

/// The parser's state: finished entities and the block being read, if any.
pub struct ParseView {
    pub done: Seq<EntityView>,
    pub current: Option<EntityView>,
}

/// One trimmed line applied to the state. `{` opens a block, `}` closes the
/// open one, a `"key" "value"` line inside a block sets a property; any
/// other line is skipped.
pub open spec fn step(st: ParseView, line: Seq<u8>) -> ParseView {
    if line == seq![123u8] {
        ParseView { done: st.done, current: Some(empty_entity()) }
    } else if line == seq![125u8] {
        match st.current {
            Some(e) => ParseView { done: st.done.push(e), current: None },
            None => ParseView { done: st.done, current: None },
        }
    } else {
        match (st.current, kv_of(line)) {
            (Some(e), Some((k, v))) => ParseView { done: st.done, current: Some(apply_kv(e, k, v)) },
            _ => st,
        }
    }
}

/// The parse of `text` from `pos`, where the current line began at `start`.
pub open spec fn parse_from(text: Seq<u8>, pos: int, start: int, st: ParseView) -> Seq<EntityView>
    decreases text.len() - pos,
{
    if pos >= text.len() {
        if start < text.len() {
            step(st, trim(text.subrange(start, text.len() as int))).done
        } else {
            st.done
        }
    } else if text[pos] == 10 {
        parse_from(text, pos + 1, pos + 1, step(st, trim(text.subrange(start, pos))))
    } else {
        parse_from(text, pos + 1, start, st)
    }
}

/// The entities that the lump text spells, in file order.
pub open spec fn parse_entities(text: Seq<u8>) -> Seq<EntityView> {
    parse_from(text, 0, 0, ParseView { done: Seq::empty(), current: None })
}

/// A copy of `s` without leading and trailing ASCII whitespace.
pub fn trim_bytes(s: &[u8]) -> (r: Vec<u8>)
    ensures
        r@ == trim(s@),
{
    let n = s.len();
    let mut a: usize = 0;
    while a < n && (s[a] == 32 || (9 <= s[a] && s[a] <= 13))
        invariant
            a <= n == s@.len(),
            skip_spaces(s@, a as int) == skip_spaces(s@, 0),
        decreases n - a,
    {
        a = a + 1;
    }
    let mut b: usize = n;
    while b > a && (s[b - 1] == 32 || (9 <= s[b - 1] && s[b - 1] <= 13))
        invariant
            a <= b <= n == s@.len(),
            a == skip_spaces(s@, 0),
            back_spaces(s@, a as int, b as int) == back_spaces(s@, a as int, n as int),
        decreases b - a,
    {
        b = b - 1;
    }
    copy_range(s, a, b)
}

fn find_quote(s: &[u8], i: usize) -> (r: Option<usize>)
    ensures
        i as int <= s@.len() ==> match r {
            Some(k) => k as int == next_quote(s@, i as int) && i <= k < s@.len() <= usize::MAX,
            None => next_quote(s@, i as int) == -1,
        },
{
    let mut k: usize = i;
    while k < s.len()
        invariant
            i <= k,
            i as int <= s@.len() ==> next_quote(s@, k as int) == next_quote(s@, i as int),
        decreases s@.len() - k,
    {
        if s[k] == 34 {
            return Some(k);
        }
        k = k + 1;
    }
    None
}

/// Splits a `"key" "value"` line into its key and value.
pub fn parse_kv_line(s: &[u8]) -> (r: Option<(Vec<u8>, Vec<u8>)>)
    ensures
        match (r, kv_of(s@)) {
            (Some((k, v)), Some((ks, vs))) => k@ == ks && v@ == vs,
            (None, None) => true,
            _ => false,
        },
{
    let q1 = match find_quote(s, 0) {
        Some(q) => q,
        None => return None,
    };
    let q2 = match find_quote(s, q1 + 1) {
        Some(q) => q,
        None => return None,
    };
    let q3 = match find_quote(s, q2 + 1) {
        Some(q) => q,
        None => return None,
    };
    let q4 = match find_quote(s, q3 + 1) {
        Some(q) => q,
        None => return None,
    };
    Some((copy_range(s, q1 + 1, q2), copy_range(s, q3 + 1, q4)))
}

impl BspEntity {
    /// An entity with no class and no properties.
    pub fn new() -> (r: Self)
        ensures
            r@ == empty_entity(),
    {
        let r = BspEntity { classname: Vec::new(), properties: Vec::new() };
        assert(r@.properties =~= Seq::<(Seq<u8>, Seq<u8>)>::empty());
        r
    }

    /// The value of property `key`, if the entity has it.
    pub fn get(&self, key: &[u8]) -> (r: Option<&Vec<u8>>)
        ensures
            ({
                let i = key_index(self@.properties, key@, 0);
                &&& i < 0 ==> r is None
                &&& i >= 0 ==> (r matches Some(v) && v@ == self@.properties[i].1)
            }),
    {
        let ghost pv = self@.properties;
        let mut i: usize = 0;
        while i < self.properties.len()
            invariant
                i <= self.properties@.len(),
                pv == props_view(self.properties@),
                key_index(pv, key@, i as int) == key_index(pv, key@, 0),
            decreases self.properties@.len() - i,
        {
            if bytes_eq(self.properties[i].0.as_slice(), key) {
                return Some(&self.properties[i].1);
            }
            i = i + 1;
        }
        None
    }

    /// Sets property `k` to `v`, replacing an earlier value of the same key.
    pub fn set_property(&mut self, k: Vec<u8>, v: Vec<u8>)
        ensures
            final(self)@.properties == prop_insert(old(self)@.properties, k@, v@),
            final(self).classname == old(self).classname,
    {
        let ghost pv = old(self)@.properties;
        let mut i: usize = 0;
        while i < self.properties.len()
            invariant
                i <= self.properties@.len(),
                self.properties == old(self).properties,
                self.classname == old(self).classname,
                pv == props_view(self.properties@),
                key_index(pv, k@, i as int) == key_index(pv, k@, 0),
            decreases self.properties@.len() - i,
        {
            if bytes_eq(self.properties[i].0.as_slice(), k.as_slice()) {
                self.properties[i] = (k, v);
                assert(props_view(self.properties@) =~= prop_insert(pv, k@, v@));
                return;
            }
            i = i + 1;
        }
        self.properties.push((k, v));
        assert(props_view(self.properties@) =~= prop_insert(pv, k@, v@));
    }

    /// Applies one `"key" "value"` line; a `classname` key also sets the class.
    pub fn apply_property(&mut self, k: Vec<u8>, v: Vec<u8>)
        ensures
            final(self)@ == apply_kv(old(self)@, k@, v@),
    {
        let key_class: [u8; 9] = [99u8, 108u8, 97u8, 115u8, 115u8, 110u8, 97u8, 109u8, 101u8];
        assert(key_class@ =~= classname_key());
        if bytes_eq(k.as_slice(), key_class.as_slice()) {
            self.classname = copy_range(v.as_slice(), 0, v.len());
            assert(v@.subrange(0, v@.len() as int) =~= v@);
        }
        self.set_property(k, v);
    }
}

/// The parser's state as values.
pub open spec fn state_view(done: Seq<BspEntity>, current: Option<BspEntity>) -> ParseView {
    ParseView {
        done: entities_view(done),
        current: match current {
            Some(e) => Some(e@),
            None => None,
        },
    }
}

fn apply_line(done: &mut Vec<BspEntity>, current: &mut Option<BspEntity>, line: &[u8])
    ensures
        state_view(final(done)@, *final(current)) == step(state_view(old(done)@, *old(current)), line@),
{
    if line.len() == 1 && line[0] == 123 {
        assert(line@ =~= seq![123u8]);
        *current = Some(BspEntity::new());
    } else if line.len() == 1 && line[0] == 125 {
        assert(line@ =~= seq![125u8]);
        assert(line@ != seq![123u8]);
        let taken = current.take();
        match taken {
            Some(e) => {
                done.push(e);
                assert(entities_view(done@) =~= entities_view(old(done)@).push(e@));
            },
            None => {},
        }
    } else {
        assert(line@ != seq![123u8] && line@ != seq![125u8]) by {
            if line@.len() == 1 {
                assert(line@[0] != seq![123u8][0]);
                assert(line@[0] != seq![125u8][0]);
            }
        }
        match current {
            Some(e) => {
                match parse_kv_line(line) {
                    Some((k, v)) => {
                        e.apply_property(k, v);
                    },
                    None => {},
                }
            },
            None => {},
        }
    }
}

/// Parses the entity lump text into entities, in file order. Lines outside
/// a block and malformed lines inside one are skipped; a block that is
/// never closed is dropped.
pub fn parse_entity_lump(text: &[u8]) -> (r: Vec<BspEntity>)
    ensures
        entities_view(r@) == parse_entities(text@),
{
    let ghost init = ParseView { done: Seq::empty(), current: None };
    let mut done: Vec<BspEntity> = Vec::new();
    let mut current: Option<BspEntity> = None;
    let mut start: usize = 0;
    let mut pos: usize = 0;
    let n = text.len();
    assert(entities_view(done@) =~= Seq::<EntityView>::empty());
    loop
        invariant
            n == text@.len(),
            start <= pos <= n,
            parse_from(text@, pos as int, start as int, state_view(done@, current))
                == parse_from(text@, 0, 0, init),
        ensures
            entities_view(done@) == parse_from(text@, 0, 0, init),
        decreases n - pos,
    {
        if pos == n {
            if start < n {
                let line = trim_bytes(copy_range(text, start, pos).as_slice());
                apply_line(&mut done, &mut current, line.as_slice());
            }
            break;
        }
        if text[pos] == 10 {
            let line = trim_bytes(copy_range(text, start, pos).as_slice());
            apply_line(&mut done, &mut current, line.as_slice());
            start = pos + 1;
        }
        pos = pos + 1;
    }
    done
}

} // verus!