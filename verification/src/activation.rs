//! Account activation: the registry of pending activation links, each
//! leading to the email address it was mailed to.

use vstd::prelude::*;
use crate::decimal::{digit_char, is_digit, push_char};
use crate::ids::is_url_safe_id;

verus! {

/// The map that a list of (link, email) entries describes; a later entry
/// for a link wins over an earlier one.
pub open spec fn entries_map(s: Seq<(String, String)>) -> Map<Seq<char>, Seq<char>>
    decreases s.len(),
{
    if s.len() == 0 {
        Map::empty()
    } else {
        entries_map(s.drop_last()).insert(s.last().0@, s.last().1@)
    }
}

/// No link occurs twice in the entries.
pub open spec fn links_distinct(s: Seq<(String, String)>) -> bool {
    forall|i: int, j: int| 0 <= i < s.len() && 0 <= j < s.len() && i != j ==> #[trigger] s[i].0@
        != #[trigger] s[j].0@
}

/// The pending activation links, each with the email address it activates.
pub struct ActivationRegistry {
    entries: Vec<(String, String)>,
}

impl View for ActivationRegistry {
    type V = Map<Seq<char>, Seq<char>>;

    closed spec fn view(&self) -> Map<Seq<char>, Seq<char>> {
        entries_map(self.entries@)
    }
}

proof fn lemma_entries_map_dom(s: Seq<(String, String)>, k: Seq<char>)
    ensures
        entries_map(s).dom().contains(k) <==> exists|i: int| 0 <= i < s.len() && #[trigger] s[i].0@ == k,
    decreases s.len(),
{
    if s.len() > 0 {
        lemma_entries_map_dom(s.drop_last(), k);
        if entries_map(s).dom().contains(k) && k != s.last().0@ {
            let i = choose|i: int| 0 <= i < s.drop_last().len() && #[trigger] s.drop_last()[i].0@ == k;
            assert(s[i].0@ == k);
        }
        if exists|i: int| 0 <= i < s.len() && #[trigger] s[i].0@ == k {
            let i = choose|i: int| 0 <= i < s.len() && #[trigger] s[i].0@ == k;
            if i < s.len() - 1 {
                assert(s.drop_last()[i].0@ == k);
            }
        }
    }
}

proof fn lemma_entries_map_value(s: Seq<(String, String)>, i: int)
    requires
        links_distinct(s),
        0 <= i < s.len(),
    ensures
        entries_map(s).dom().contains(s[i].0@),
        entries_map(s)[s[i].0@] == s[i].1@,
    decreases s.len(),
{
    if i < s.len() - 1 {
        let t = s.drop_last();
        assert(t[i] == s[i]);
        assert(links_distinct(t)) by {
            assert forall|a: int, b: int| 0 <= a < t.len() && 0 <= b < t.len() && a != b implies #[trigger] t[a].0@
                != #[trigger] t[b].0@ by {
                assert(t[a] == s[a] && t[b] == s[b]);
            }
        }
        lemma_entries_map_value(t, i);
        assert(s[i].0@ != s[s.len() - 1].0@);
    }
}

proof fn lemma_entries_map_update(s: Seq<(String, String)>, j: int, e: (String, String))
    requires
        links_distinct(s),
        0 <= j < s.len(),
        s[j].0@ == e.0@,
    ensures
        entries_map(s.update(j, e)) =~= entries_map(s).insert(e.0@, e.1@),
    decreases s.len(),
{
    let u = s.update(j, e);
    if j == s.len() - 1 {
        assert(u.drop_last() =~= s.drop_last());
    } else {
        let t = s.drop_last();
        assert(u.drop_last() =~= t.update(j, e));
        assert(links_distinct(t)) by {
            assert forall|a: int, b: int| 0 <= a < t.len() && 0 <= b < t.len() && a != b implies #[trigger] t[a].0@
                != #[trigger] t[b].0@ by {
                assert(t[a] == s[a] && t[b] == s[b]);
            }
        }
        lemma_entries_map_update(t, j, e);
        assert(s[j].0@ != s[s.len() - 1].0@);
    }
}

/// Ten to the power `w`.
pub open spec fn pow10(w: nat) -> nat
    decreases w,
{
    if w == 0 {
        1
    } else {
        10 * pow10((w - 1) as nat)
    }
}

/// The last `w` decimal digits of `k`, with leading zeros.
pub open spec fn padded_digits(k: nat, w: nat) -> Seq<char>
    decreases w,
{
    if w == 0 {
        seq![]
    } else {
        padded_digits(k / 10, (w - 1) as nat).push(digit_char((k % 10) as int))
    }
}

/// The `k`-th spare link: `k` in 21 decimal digits.
pub open spec fn spare_link(k: nat) -> Seq<char> {
    padded_digits(k, 21)
}

proof fn lemma_padded_digits(k: nat, w: nat)
    ensures
        padded_digits(k, w).len() == w,
        forall|i: int| 0 <= i < w ==> is_digit(#[trigger] padded_digits(k, w)[i]),
    decreases w,
{
    if w > 0 {
        lemma_padded_digits(k / 10, (w - 1) as nat);
        let p = padded_digits(k, w);
        assert forall|i: int| 0 <= i < w implies is_digit(#[trigger] p[i]) by {
            if i < w - 1 {
                assert(p[i] == padded_digits(k / 10, (w - 1) as nat)[i]);
            }
        }
    }
}

proof fn lemma_padded_digits_injective(k1: nat, k2: nat, w: nat)
    requires
        k1 < pow10(w),
        k2 < pow10(w),
        padded_digits(k1, w) == padded_digits(k2, w),
    ensures
        k1 == k2,
    decreases w,
{
    if w > 0 {
        let p1 = padded_digits(k1, w);
        let p2 = padded_digits(k2, w);
        assert(p1.last() == p2.last());
        assert(p1.drop_last() =~= padded_digits(k1 / 10, (w - 1) as nat));
        assert(p2.drop_last() =~= padded_digits(k2 / 10, (w - 1) as nat));
        assert(k1 / 10 < pow10((w - 1) as nat)) by (nonlinear_arith)
            requires
                k1 < 10 * pow10((w - 1) as nat),
        ;
        assert(k2 / 10 < pow10((w - 1) as nat)) by (nonlinear_arith)
            requires
                k2 < 10 * pow10((w - 1) as nat),
        ;
        lemma_padded_digits_injective(k1 / 10, k2 / 10, (w - 1) as nat);
        assert(k1 % 10 == k2 % 10);
    }
}

proof fn lemma_spare_links_distinct(k1: nat, k2: nat)
    requires
        k1 <= u64::MAX,
        k2 <= u64::MAX,
        spare_link(k1) == spare_link(k2),
    ensures
        k1 == k2,
{
    reveal_with_fuel(pow10, 22);
    assert(u64::MAX < pow10(21));
    lemma_padded_digits_injective(k1, k2, 21);
}

proof fn lemma_entries_map_dom_size(s: Seq<(String, String)>)
    ensures
        entries_map(s).dom().finite(),
        entries_map(s).dom().len() <= s.len(),
    decreases s.len(),
{
    if s.len() > 0 {
        lemma_entries_map_dom_size(s.drop_last());
        let d = entries_map(s.drop_last()).dom();
        assert(entries_map(s).dom() == d.insert(s.last().0@));
    }
}

/// If the first `k` spare links are all in `m`, whose keys are at most
/// `n`, then `k` is at most `n`.
proof fn lemma_spare_links_fit(m: Map<Seq<char>, Seq<char>>, n: nat, k: nat)
    requires
        m.dom().finite(),
        m.dom().len() <= n,
        k <= u64::MAX + 1,
        forall|j: nat| j < k ==> m.dom().contains(#[trigger] spare_link(j)),
    ensures
        k <= n,
{
    let x = vstd::set_lib::set_int_range(0, k as int);
    let f = |j: int| spare_link(j as nat);
    vstd::set_lib::lemma_int_range(0, k as int);
    assert(vstd::relations::injective_on(f, x)) by {
        assert forall|a: int, b: int| x.contains(a) && x.contains(b) && #[trigger] f(a) == #[trigger] f(b) implies a == b by {
            lemma_spare_links_distinct(a as nat, b as nat);
        }
    }
    let y = x.map(f);
    vstd::set_lib::lemma_map_size(x, y, f);
    assert(y.subset_of(m.dom())) by {
        assert forall|l: Seq<char>| y.contains(l) implies m.dom().contains(l) by {
            let j = choose|j: int| x.contains(j) && f(j) == l;
            assert(m.dom().contains(spare_link(j as nat)));
        }
    }
    vstd::set_lib::lemma_len_subset(y, m.dom());
}

fn push_padded_digits(s: &mut String, k: u64, w: usize)
    ensures
        final(s)@ == old(s)@ + padded_digits(k as nat, w as nat),
    decreases w,
{
    if w > 0 {
        push_padded_digits(s, k / 10, w - 1);
        let d: u8 = (k % 10) as u8 + 48u8;
        push_char(s, d as char);
        assert(final(s)@ =~= old(s)@ + padded_digits(k as nat, w as nat));
    }
}

fn spare_link_text(k: u64) -> (r: String)
    ensures
        r@ == spare_link(k as nat),
{
    let mut r = String::new();
    push_padded_digits(&mut r, k, 21);
    r
}

impl ActivationRegistry {
    /// The entries never name a link twice.
    #[verifier::type_invariant]
    spec fn wf(self) -> bool {
        links_distinct(self.entries@)
    }

    /// A registry with no pending link.
    pub fn new() -> (r: Self)
        ensures
            r@ == Map::<Seq<char>, Seq<char>>::empty(),
    {
        ActivationRegistry { entries: Vec::new() }
    }

    fn position(&self, link: &String) -> (r: Option<usize>)
        ensures
            match r {
                Some(i) => i < self.entries@.len() && self.entries@[i as int].0@ == link@,
                None => forall|i: int| 0 <= i < self.entries@.len() ==> #[trigger] self.entries@[i].0@ != link@,
            },
    {
        let mut i: usize = 0;
        while i < self.entries.len()
            invariant
                i <= self.entries@.len(),
                forall|k: int| 0 <= k < i ==> #[trigger] self.entries@[k].0@ != link@,
            decreases self.entries@.len() - i,
        {
            if self.entries[i].0 == *link {
                return Some(i);
            }
            i = i + 1;
        }
        None
    }

    /// The email address that `link` activates, if it is pending.
    pub fn get(&self, link: &String) -> (r: Option<String>)
        ensures
            match r {
                Some(email) => self@.dom().contains(link@) && self@[link@] == email@,
                None => !self@.dom().contains(link@),
            },
    {
        proof {
            use_type_invariant(self);
            lemma_entries_map_dom(self.entries@, link@);
        }
        match self.position(link) {
            Some(i) => {
                proof {
                    lemma_entries_map_value(self.entries@, i as int);
                }
                Some(self.entries[i].1.clone())
            },
            None => None,
        }
    }

    /// A link that is not pending: `first` itself when it is not, else the
    /// first spare link (21 decimal digits) that is not.
    pub fn unused_link(&self, first: String) -> (r: String)
        ensures
            !self@.dom().contains(r@),
            !self@.dom().contains(first@) ==> r@ == first@,
            is_url_safe_id(first@, 21) ==> is_url_safe_id(r@, 21),
    {
        proof {
            use_type_invariant(self);
            lemma_entries_map_dom_size(self.entries@);
        }
        if self.get(&first).is_none() {
            return first;
        }
        let n = self.entries.len();
        let mut k: u64 = 0;
        loop
            invariant
                n == self.entries@.len(),
                self@.dom().contains(first@),
                k as nat <= self.entries@.len(),
                self@.dom().finite(),
                self@.dom().len() <= self.entries@.len(),
                forall|j: nat| j < k ==> self@.dom().contains(#[trigger] spare_link(j)),
            decreases self.entries@.len() - k,
        {
            let c = spare_link_text(k);
            if self.get(&c).is_none() {
                proof {
                    lemma_padded_digits(k as nat, 21);
                }
                return c;
            }
            proof {
                lemma_spare_links_fit(self@, self.entries@.len(), (k + 1) as nat);
            }
            k = k + 1;
        }
    }

    /// Records that `link` activates `email`, in place of what it activated
    /// before, which is handed back.
    pub fn insert(&mut self, link: String, email: String) -> (r: Option<String>)
        ensures
            final(self)@ == old(self)@.insert(link@, email@),
            match r {
                Some(prev) => old(self)@.dom().contains(link@) && old(self)@[link@] == prev@,
                None => !old(self)@.dom().contains(link@),
            },
    {
        proof {
            use_type_invariant(&*self);
            lemma_entries_map_dom(self.entries@, link@);
        }
        match self.position(&link) {
            Some(i) => {
                proof {
                    lemma_entries_map_value(self.entries@, i as int);
                    lemma_entries_map_update(self.entries@, i as int, (link, email));
                }
                let prev = self.entries[i].1.clone();
                let mut entries = Vec::new();
                std::mem::swap(&mut entries, &mut self.entries);
                entries.set(i, (link, email));
                self.entries = entries;
                Some(prev)
            },
            None => {
                let ghost before = self.entries@;
                let mut entries = Vec::new();
                std::mem::swap(&mut entries, &mut self.entries);
                entries.push((link, email));
                proof {
                    assert(entries@.drop_last() =~= before);
                }
                self.entries = entries;
                None
            },
        }
    }
}

} // verus!
