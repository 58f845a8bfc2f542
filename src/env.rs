//! A flat map of environment variables, decimal rendering and list joining.

use vstd::prelude::*;
use vstd::string::*;
use crate::strings::same_text;

verus! {

/// The map that a list of assignments leaves behind: later assignments win.
pub open spec fn pairs_to_map(s: Seq<(Seq<char>, Seq<char>)>) -> Map<Seq<char>, Seq<char>>
    decreases s.len(),
{
    if s.len() == 0 {
        Map::empty()
    } else {
        pairs_to_map(s.drop_last()).insert(s.last().0, s.last().1)
    }
}

pub proof fn lemma_pairs_push(s: Seq<(Seq<char>, Seq<char>)>, e: (Seq<char>, Seq<char>))
    ensures
        pairs_to_map(s.push(e)) == pairs_to_map(s).insert(e.0, e.1),
{
    assert(s.push(e).drop_last() =~= s);
}

pub proof fn lemma_pairs_concat(a: Seq<(Seq<char>, Seq<char>)>, b: Seq<(Seq<char>, Seq<char>)>)
    ensures
        pairs_to_map(a + b) == apply_pairs(pairs_to_map(a), b),
    decreases b.len(),
{
    if b.len() > 0 {
        lemma_pairs_concat(a, b.drop_last());
        assert((a + b).drop_last() =~= a + b.drop_last());
    } else {
        assert(a + b =~= a);
    }
}

/// `m` with the assignments of `s` applied in order.
pub open spec fn apply_pairs(m: Map<Seq<char>, Seq<char>>, s: Seq<(Seq<char>, Seq<char>)>) -> Map<
    Seq<char>,
    Seq<char>,
>
    decreases s.len(),
{
    if s.len() == 0 {
        m
    } else {
        apply_pairs(m, s.drop_last()).insert(s.last().0, s.last().1)
    }
}

/// Keys of assignments after position `n` do not matter for `k` when none is `k`.
proof fn lemma_pairs_prefix(s: Seq<(Seq<char>, Seq<char>)>, n: int, k: Seq<char>)
    requires
        0 <= n <= s.len(),
        forall|j: int| n <= j < s.len() ==> (#[trigger] s[j]).0 != k,
    ensures
        pairs_to_map(s).contains_key(k) == pairs_to_map(s.subrange(0, n)).contains_key(k),
        pairs_to_map(s)[k] == pairs_to_map(s.subrange(0, n))[k],
    decreases s.len() - n,
{
    if n < s.len() {
        let t = s.drop_last();
        assert forall|j: int| n <= j < t.len() implies (#[trigger] t[j]).0 != k by {
            assert(t[j] == s[j]);
        }
        lemma_pairs_prefix(t, n, k);
        assert(t.subrange(0, n) =~= s.subrange(0, n));
    } else {
        assert(s.subrange(0, n) =~= s);
    }
}

/// Environment variables handed to child processes. Assigning a key again replaces
/// its value.
#[derive(Clone, Debug)]
pub struct EnvMap {
    entries: Vec<(String, String)>,
}

pub open spec fn view_pairs(v: Seq<(String, String)>) -> Seq<(Seq<char>, Seq<char>)> {
    v.map_values(|e: (String, String)| (e.0@, e.1@))
}

impl View for EnvMap {
    type V = Map<Seq<char>, Seq<char>>;

    closed spec fn view(&self) -> Map<Seq<char>, Seq<char>> {
        pairs_to_map(view_pairs(self.entries@))
    }
}

impl EnvMap {
    pub fn new() -> (r: EnvMap)
        ensures
            r@ == Map::<Seq<char>, Seq<char>>::empty(),
    {
        let r = EnvMap { entries: Vec::new() };
        assert(view_pairs(r.entries@) =~= Seq::empty());
        r
    }

    /// Sets `key` to `value`.
    pub fn insert(&mut self, key: String, value: String)
        ensures
            final(self)@ == old(self)@.insert(key@, value@),
    {
        let ghost before = view_pairs(self.entries@);
        self.entries.push((key, value));
        proof {
            assert(view_pairs(self.entries@) =~= before.push((key@, value@)));
            lemma_pairs_push(before, (key@, value@));
        }
    }

    /// Sets `key` to `value` unless `key` already has a value.
    pub fn insert_if_absent(&mut self, key: String, value: String)
        ensures
            old(self)@.contains_key(key@) ==> final(self)@ == old(self)@,
            !old(self)@.contains_key(key@) ==> final(self)@ == old(self)@.insert(key@, value@),
    {
        if !self.contains_key(key.as_str()) {
            self.insert(key, value);
        }
    }

    /// The value of `key`, if it has one.
    pub fn get(&self, key: &str) -> (r: Option<String>)
        ensures
            r.is_some() == self@.contains_key(key@),
            r.is_some() ==> r.unwrap()@ == self@[key@],
    {
        let ghost pairs = view_pairs(self.entries@);
        let mut i: usize = self.entries.len();
        while i > 0
            invariant
                i <= self.entries@.len(),
                pairs == view_pairs(self.entries@),
                forall|j: int| i <= j < pairs.len() ==> (#[trigger] pairs[j]).0 != key@,
            decreases i,
        {
            let e = &self.entries[i - 1];
            if same_text(e.0.as_str(), key) {
                proof {
                    lemma_pairs_prefix(pairs, i as int, key@);
                    let t = pairs.subrange(0, i as int);
                    assert(t.drop_last().push(t.last()) =~= t);
                    lemma_pairs_push(t.drop_last(), t.last());
                }
                return Some(e.1.clone());
            }
            i = i - 1;
        }
        proof {
            lemma_pairs_prefix(pairs, 0, key@);
        }
        None
    }

    pub fn contains_key(&self, key: &str) -> (r: bool)
        ensures
            r == self@.contains_key(key@),
    {
        self.get(key).is_some()
    }

    /// The assignments in order; applying them to an empty map gives this map.
    pub fn to_pairs(&self) -> (r: Vec<(String, String)>)
        ensures
            pairs_to_map(view_pairs(r@)) == self@,
    {
        let mut out: Vec<(String, String)> = Vec::new();
        let mut i: usize = 0;
        while i < self.entries.len()
            invariant
                i <= self.entries@.len(),
                view_pairs(out@) == view_pairs(self.entries@.subrange(0, i as int)),
            decreases self.entries@.len() - i,
        {
            let k = self.entries[i].0.clone();
            let v = self.entries[i].1.clone();
            let ghost before = out@;
            out.push((k, v));
            proof {
                assert(out@ == before.push((k, v)));
                assert(view_pairs(out@) =~= view_pairs(before).push((k@, v@)));
                assert(self.entries@.subrange(0, i + 1) =~= self.entries@.subrange(
                    0,
                    i as int,
                ).push(self.entries@[i as int]));
                assert(view_pairs(self.entries@.subrange(0, i + 1)) =~= view_pairs(
                    self.entries@.subrange(0, i as int),
                ).push((k@, v@)));
            }
            i = i + 1;
        }
        assert(self.entries@.subrange(0, i as int) =~= self.entries@);
        out
    }
}

pub open spec fn digit_char(d: nat) -> char {
    seq!['0', '1', '2', '3', '4', '5', '6', '7', '8', '9'][d as int]
}

/// Decimal digits of `n`, without leading zeros.
pub open spec fn decimal_spec(n: nat) -> Seq<char>
    decreases n,
{
    if n < 10 {
        seq![digit_char(n)]
    } else {
        decimal_spec(n / 10).push(digit_char(n % 10))
    }
}

/// `n` in decimal, as `to_string` writes it.
pub fn decimal(n: usize) -> (r: String)
    ensures
        r@ == decimal_spec(n as nat),
    decreases n,
{
    let digits = "0123456789";
    proof {
        reveal_strlit("0123456789");
    }
    let d = n % 10;
    let last = digits.substring_char(d, d + 1);
    if n < 10 {
        let r = String::from_str(last);
        assert(r@ =~= seq![digit_char(n as nat)]);
        r
    } else {
        let mut r = decimal(n / 10);
        r.append(last);
        assert(last@ =~= seq![digit_char((n % 10) as nat)]);
        r
    }
}

/// The texts of `parts` separated by `sep`.
pub open spec fn join_spec(parts: Seq<Seq<char>>, sep: Seq<char>) -> Seq<char>
    decreases parts.len(),
{
    if parts.len() == 0 {
        Seq::empty()
    } else if parts.len() == 1 {
        parts[0]
    } else {
        join_spec(parts.drop_last(), sep) + sep + parts.last()
    }
}

pub open spec fn strings_view(v: Seq<String>) -> Seq<Seq<char>> {
    v.map_values(|s: String| s@)
}

/// Joins `parts` with `sep` between consecutive items.
pub fn join(parts: &Vec<String>, sep: &str) -> (r: String)
    ensures
        r@ == join_spec(strings_view(parts@), sep@),
{
    let mut out = String::new();
    let mut i: usize = 0;
    while i < parts.len()
        invariant
            i <= parts@.len(),
            out@ == join_spec(strings_view(parts@.subrange(0, i as int)), sep@),
        decreases parts@.len() - i,
    {
        let ghost prev = strings_view(parts@.subrange(0, i as int));
        if i > 0 {
            out.append(sep);
        }
        out.append(parts[i].as_str());
        proof {
            let next = strings_view(parts@.subrange(0, i + 1));
            assert(next.drop_last() =~= prev);
            assert(next.last() == parts@[i as int]@);
            if i == 0 {
                assert(next.len() == 1);
            }
        }
        i = i + 1;
    }
    assert(parts@.subrange(0, i as int) =~= parts@);
    out
}

} // verus!
