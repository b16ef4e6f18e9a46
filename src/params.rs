//! A map from parameter names to values, as a descriptor holds them.

use vstd::prelude::*;

use crate::text::chars_of;

verus! {

/// The map that a list of entries stands for: a later entry for a key hides
/// an earlier one.
pub open spec fn map_of(entries: Seq<(String, String)>) -> Map<Seq<char>, Seq<char>>
    decreases entries.len(),
{
    if entries.len() == 0 {
        Map::empty()
    } else {
        let last = entries.last();
        map_of(entries.drop_last()).insert(last.0@, last.1@)
    }
}

/// String keys, string values.
pub struct ParamMap {
    entries: Vec<(String, String)>,
}

impl View for ParamMap {
    type V = Map<Seq<char>, Seq<char>>;

    closed spec fn view(&self) -> Map<Seq<char>, Seq<char>> {
        map_of(self.entries@)
    }
}

/// Entry `i` is not hidden by a later entry for the same key.
pub open spec fn live(entries: Seq<(String, String)>, i: int) -> bool {
    forall|j: int| i < j < entries.len() ==> entries[j].0@ != entries[i].0@
}

/// One line of a map's rendering: `"key": "value",`.
pub open spec fn entry_text(k: Seq<char>, v: Seq<char>) -> Seq<char> {
    "        \""@ + k + "\": \""@ + v + "\",\n"@
}

/// The lines for the live entries among the first `k`, in order.
pub open spec fn body_text(entries: Seq<(String, String)>, k: int) -> Seq<char>
    decreases k,
{
    if k <= 0 || k > entries.len() {
        seq![]
    } else if live(entries, k - 1) {
        body_text(entries, k - 1) + entry_text(entries[k - 1].0@, entries[k - 1].1@)
    } else {
        body_text(entries, k - 1)
    }
}

/// A map's rendering: `{}` when empty, else one line per key between braces.
pub open spec fn map_text(entries: Seq<(String, String)>) -> Seq<char> {
    let body = body_text(entries, entries.len() as int);
    if body.len() == 0 {
        "{}"@
    } else {
        "{\n"@ + body + "    }"@
    }
}

/// Where no entry from `i` on has key `k`, the map of the first `i` entries
/// says of `k` what the map of all of them says.
proof fn lemma_map_of_prefix(entries: Seq<(String, String)>, i: int, k: Seq<char>)
    requires
        0 <= i <= entries.len(),
        forall|j: int| i <= j < entries.len() ==> entries[j].0@ != k,
    ensures
        map_of(entries).contains_key(k) == map_of(entries.take(i)).contains_key(k),
        map_of(entries).contains_key(k) ==> map_of(entries)[k] == map_of(entries.take(i))[k],
    decreases entries.len() - i,
{
    if i < entries.len() {
        let shorter = entries.drop_last();
        assert(shorter.take(i) =~= entries.take(i));
        lemma_map_of_prefix(shorter, i, k);
    } else {
        assert(entries.take(i) =~= entries);
    }
}

impl ParamMap {
    /// How the map is rendered.
    pub closed spec fn text(&self) -> Seq<char> {
        map_text(self.entries@)
    }

    /// Renders the map, one `"key": "value",` line per key.
    pub fn render(&self) -> (r: String)
        ensures
            r@ == self.text(),
    {
        let ghost e = self.entries@;
        let n = self.entries.len();
        let mut body: Vec<char> = Vec::new();
        let mut i: usize = 0;
        while i < n
            invariant
                i <= n,
                n == e.len(),
                e == self.entries@,
                body@ == body_text(e, i as int),
            decreases n - i,
        {
            let mut shown = true;
            let mut j: usize = i + 1;
            while j < n
                invariant
                    i < j <= n,
                    n == e.len(),
                    e == self.entries@,
                    shown == (forall|m: int| i < m < j ==> e[m].0@ != e[i as int].0@),
                decreases n - j,
            {
                if self.entries[j].0 == self.entries[i].0 {
                    shown = false;
                }
                j = j + 1;
            }
            if shown {
                let ghost before = body@;
                let mut a = chars_of("        \"");
                body.append(&mut a);
                let mut k = chars_of(self.entries[i].0.as_str());
                body.append(&mut k);
                let mut b = chars_of("\": \"");
                body.append(&mut b);
                let mut v = chars_of(self.entries[i].1.as_str());
                body.append(&mut v);
                let mut c = chars_of("\",\n");
                body.append(&mut c);
                assert(body@ =~= before + entry_text(e[i as int].0@, e[i as int].1@));
            }
            i = i + 1;
        }
        if body.len() == 0 {
            String::from_str("{}")
        } else {
            let mut out = chars_of("{\n");
            out.append(&mut body);
            let mut close = chars_of("    }");
            out.append(&mut close);
            crate::text::string_of(out.as_slice())
        }
    }

    /// An empty map.
    pub fn new() -> (m: ParamMap)
        ensures
            m@ == Map::<Seq<char>, Seq<char>>::empty(),
    {
        ParamMap { entries: Vec::new() }
    }

    /// Sets `key` to `value`.
    pub fn insert(&mut self, key: String, value: String)
        ensures
            final(self)@ == old(self)@.insert(key@, value@),
    {
        self.entries.push((key, value));
        proof {
            assert(self.entries@.drop_last() =~= old(self).entries@);
        }
    }

    /// The value of `key`, if it has one.
    pub fn get(&self, key: &str) -> (r: Option<&String>)
        ensures
            match r {
                Some(v) => self@.contains_key(key@) && self@[key@] == v@,
                None => !self@.contains_key(key@),
            },
    {
        let k = String::from_str(key);
        let mut i: usize = self.entries.len();
        while i > 0
            invariant
                i <= self.entries@.len(),
                k@ == key@,
                forall|j: int| i <= j < self.entries@.len() ==> self.entries@[j].0@ != key@,
            decreases i,
        {
            if self.entries[i - 1].0 == k {
                proof {
                    let e = self.entries@;
                    lemma_map_of_prefix(e, i as int, key@);
                    assert(e.take(i as int).drop_last() =~= e.take(i - 1));
                }
                return Some(&self.entries[i - 1].1);
            }
            i = i - 1;
        }
        proof {
            lemma_map_of_prefix(self.entries@, 0, key@);
            assert(self.entries@.take(0) =~= Seq::<(String, String)>::empty());
        }
        None
    }
}

} // verus!
