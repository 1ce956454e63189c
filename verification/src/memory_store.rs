//! The in-memory reference backend: one shared mapping from id to stored
//! state, plus a verified decimal counter whose ids are provably fresh.

use vstd::prelude::*;
use vstd::string::StringExecFns;

use crate::cookie_options::CookieOptions;
use crate::data::{
    find_key, keys_distinct, lemma_pairs_to_map_contains, lemma_pairs_to_map_dom_len,
    lemma_pairs_to_map_index, lemma_pairs_to_map_remove, lemma_pairs_to_map_update, pairs_to_map,
    Data,
};
use crate::session::{Session, Status};
use crate::storage::{valid_sid, verify_sid, SessionError, Storage, StoredModel};

verus! {

broadcast use vstd::std_specs::vec::group_vec_axioms, vstd::seq::group_seq_axioms;

/// The character spelling one decimal digit value.
pub open spec fn digit_char(d: u8) -> char {
    if d == 0 {
        '0'
    } else if d == 1 {
        '1'
    } else if d == 2 {
        '2'
    } else if d == 3 {
        '3'
    } else if d == 4 {
        '4'
    } else if d == 5 {
        '5'
    } else if d == 6 {
        '6'
    } else if d == 7 {
        '7'
    } else if d == 8 {
        '8'
    } else {
        '9'
    }
}

/// The digit value a character spells; ten for a non-digit.
pub open spec fn char_digit(c: char) -> u8 {
    if c == '0' {
        0
    } else if c == '1' {
        1
    } else if c == '2' {
        2
    } else if c == '3' {
        3
    } else if c == '4' {
        4
    } else if c == '5' {
        5
    } else if c == '6' {
        6
    } else if c == '7' {
        7
    } else if c == '8' {
        8
    } else if c == '9' {
        9
    } else {
        10
    }
}

/// Every element is a decimal digit value.
pub open spec fn all_digits(s: Seq<u8>) -> bool {
    forall|i: int| 0 <= i < s.len() ==> (#[trigger] s[i]) < 10
}

/// The number spelled by the digit suffix starting at `i`, least significant
/// digit first.
pub open spec fn digits_val(s: Seq<u8>, i: int) -> nat
    decreases s.len() - i,
{
    if i < 0 || i >= s.len() {
        0
    } else {
        (s[i] + 10 * digits_val(s, i + 1)) as nat
    }
}

/// The number spelled by the character suffix starting at `i`, read as
/// digits, least significant first.
pub open spec fn chars_val(s: Seq<char>, i: int) -> nat
    decreases s.len() - i,
{
    if i < 0 || i >= s.len() {
        0
    } else {
        (char_digit(s[i]) + 10 * chars_val(s, i + 1)) as nat
    }
}

/// Characters spelled from digits read back to the digits' value.
proof fn lemma_chars_of_digits(digits: Seq<u8>, cs: Seq<char>, i: int)
    requires
        all_digits(digits),
        cs.len() == digits.len(),
        forall|j: int| 0 <= j < digits.len() ==> cs[j] == digit_char(#[trigger] digits[j]),
        0 <= i <= digits.len(),
    ensures
        chars_val(cs, i) == digits_val(digits, i),
    decreases digits.len() - i,
{
    if i < digits.len() {
        lemma_chars_of_digits(digits, cs, i + 1);
        assert(char_digit(digit_char(digits[i])) == digits[i]);
    }
}

/// The value of a digit suffix depends only on the digits in it.
proof fn lemma_digits_val_congruent(a: Seq<u8>, b: Seq<u8>, i: int)
    requires
        a.len() == b.len(),
        0 <= i,
        forall|j: int| i <= j < a.len() ==> a[j] == b[j],
    ensures
        digits_val(a, i) == digits_val(b, i),
    decreases a.len() - i,
{
    if i < a.len() {
        lemma_digits_val_congruent(a, b, i + 1);
        assert(a[i] == b[i]);
    }
}

/// Turning a run of trailing-carry nines into zeros and bumping the next
/// digit adds one to the number.
proof fn lemma_inc_val(a: Seq<u8>, b: Seq<u8>, k: int, p: int)
    requires
        a.len() == b.len(),
        0 <= k <= p < a.len(),
        forall|j: int| k <= j < p ==> a[j] == 9 && b[j] == 0,
        b[p] == a[p] + 1,
        forall|j: int| p < j < a.len() ==> a[j] == b[j],
    ensures
        digits_val(b, k) == digits_val(a, k) + 1,
    decreases p - k,
{
    if k == p {
        lemma_digits_val_congruent(a, b, p + 1);
    } else {
        lemma_inc_val(a, b, k + 1, p);
        assert(a[k] == 9 && b[k] == 0);
    }
}

/// When every digit carries, the number grows a new leading one and the
/// value still goes up by exactly one.
proof fn lemma_inc_val_grow(a: Seq<u8>, b: Seq<u8>, k: int)
    requires
        b.len() == a.len() + 1,
        0 <= k <= a.len(),
        forall|j: int| k <= j < a.len() ==> a[j] == 9 && b[j] == 0,
        b[a.len() as int] == 1,
    ensures
        digits_val(b, k) == digits_val(a, k) + 1,
    decreases a.len() - k,
{
    if k < a.len() {
        lemma_inc_val_grow(a, b, k + 1);
        assert(a[k] == 9 && b[k] == 0);
    } else {
        assert(digits_val(b, k + 1) == 0);
        assert(digits_val(a, k) == 0);
        assert(digits_val(b, k) == (b[k] + 10 * digits_val(b, k + 1)) as nat);
    }
}

/// Replaces the digit at `i`.
fn set_digit(d: &mut Vec<u8>, i: usize, x: u8)
    requires
        i < old(d).len(),
    ensures
        final(d)@ == old(d)@.update(i as int, x),
{
    let _ = d.remove(i);
    d.insert(i, x);
    proof {
        assert(d@ =~= old(d)@.update(i as int, x));
    }
}

/// Adds one to the number held as little-endian decimal digits.
#[verifier::loop_isolation(false)]
fn inc_digits(d: &mut Vec<u8>)
    requires
        all_digits(old(d)@),
    ensures
        all_digits(final(d)@),
        digits_val(final(d)@, 0) == digits_val(old(d)@, 0) + 1,
{
    let ghost a = old(d)@;
    let mut i: usize = 0;
    while i < d.len() && d[i] == 9
        invariant
            i <= d@.len(),
            d@.len() == a.len(),
            all_digits(d@),
            forall|j: int| 0 <= j < i ==> a[j] == 9 && d@[j] == 0,
            forall|j: int| i <= j < a.len() ==> d@[j] == a[j],
        decreases d@.len() - i,
    {
        set_digit(d, i, 0);
        i = i + 1;
    }
    if i < d.len() {
        let x = d[i];
        set_digit(d, i, x + 1);
        proof {
            lemma_inc_val(a, d@, 0, i as int);
        }
    } else {
        d.push(1);
        proof {
            lemma_inc_val_grow(a, d@, 0);
        }
    }
}

/// The string slice spelling one decimal digit.
fn digit_str(d: u8) -> (r: &'static str)
    requires
        d < 10,
    ensures
        r@ == seq![digit_char(d)],
{
    proof {
        reveal_strlit("0");
        reveal_strlit("1");
        reveal_strlit("2");
        reveal_strlit("3");
        reveal_strlit("4");
        reveal_strlit("5");
        reveal_strlit("6");
        reveal_strlit("7");
        reveal_strlit("8");
        reveal_strlit("9");
    }
    match d {
        0 => "0",
        1 => "1",
        2 => "2",
        3 => "3",
        4 => "4",
        5 => "5",
        6 => "6",
        7 => "7",
        8 => "8",
        _ => "9",
    }
}

/// One stored entry: a snapshot of session data and the time-to-live it was
/// saved under.
#[derive(Debug)]
struct StoredEntry {
    data: Data,
    ttl_secs: u64,
}

/// The models of the store's entries, pair by pair.
spec fn entries_model(s: Seq<(String, StoredEntry)>) -> Seq<(Seq<char>, StoredModel)> {
    Seq::new(
        s.len(),
        |i: int| (s[i].0@, StoredModel { data: s[i].1.data@, ttl_secs: s[i].1.ttl_secs }),
    )
}

/// The in-memory store: session states by id behind one guard, and a
/// little-endian decimal counter from which fresh ids are spelled.
pub struct MemoryStore {
    entries: Vec<(String, StoredEntry)>,
    counter: Vec<u8>,
    issued_ids: Ghost<Set<Seq<char>>>,
}

impl MemoryStore {
    /// Creates an empty store that has issued no id yet.
    pub fn new() -> (s: MemoryStore)
        ensures
            s.inv(),
            s.contents() == Map::<Seq<char>, StoredModel>::empty(),
            s.issued() == Set::<Seq<char>>::empty(),
    {
        let s = MemoryStore {
            entries: Vec::new(),
            counter: Vec::new(),
            issued_ids: Ghost(Set::empty()),
        };
        proof {
            assert(entries_model(s.entries@) =~= Seq::empty());
        }
        s
    }

    /// How many session states are held.
    pub fn count(&self) -> (n: usize)
        requires
            self.inv(),
        ensures
            n == self.contents().dom().len(),
    {
        proof {
            lemma_pairs_to_map_dom_len(entries_model(self.entries@));
        }
        self.entries.len()
    }

    /// Whether a state is held for `id`.
    pub fn contains_id(&self, id: &str) -> (b: bool)
        ensures
            b == self.contents().contains_key(id@),
    {
        proof {
            lemma_pairs_to_map_contains(entries_model(self.entries@), id@);
        }
        let r = find_key(&self.entries, id);
        match r {
            Some(i) => {
                proof {
                    assert(entries_model(self.entries@)[i as int].0 == id@);
                }
                true
            },
            None => {
                proof {
                    let sm = entries_model(self.entries@);
                    assert(forall|i: int| 0 <= i < sm.len() ==> (#[trigger] sm[i]).0 != id@);
                }
                false
            },
        }
    }

    /// A copy of the state held for `id`, or nothing.
    pub fn state_of(&self, id: &str) -> (r: Option<Data>)
        requires
            self.inv(),
        ensures
            (r is Some) == self.contents().contains_key(id@),
            r matches Some(d) ==> d.wf() && d@ == self.contents()[id@].data,
    {
        proof {
            lemma_pairs_to_map_contains(entries_model(self.entries@), id@);
        }
        let found = find_key(&self.entries, id);
        match found {
            Some(i) => {
                proof {
                    lemma_pairs_to_map_index(entries_model(self.entries@), i as int);
                }
                Some(self.entries[i].1.data.duplicate())
            },
            None => {
                proof {
                    let sm = entries_model(self.entries@);
                    assert(forall|i: int| 0 <= i < sm.len() ==> (#[trigger] sm[i]).0 != id@);
                }
                None
            },
        }
    }

    /// The time-to-live the state for `id` was saved under, or nothing.
    pub fn ttl_of(&self, id: &str) -> (r: Option<u64>)
        requires
            self.inv(),
        ensures
            (r is Some) == self.contents().contains_key(id@),
            r matches Some(t) ==> t == self.contents()[id@].ttl_secs,
    {
        proof {
            lemma_pairs_to_map_contains(entries_model(self.entries@), id@);
        }
        let found = find_key(&self.entries, id);
        match found {
            Some(i) => {
                proof {
                    lemma_pairs_to_map_index(entries_model(self.entries@), i as int);
                }
                Some(self.entries[i].1.ttl_secs)
            },
            None => {
                proof {
                    let sm = entries_model(self.entries@);
                    assert(forall|i: int| 0 <= i < sm.len() ==> (#[trigger] sm[i]).0 != id@);
                }
                None
            },
        }
    }
}

impl Storage for MemoryStore {
    closed spec fn contents(&self) -> Map<Seq<char>, StoredModel> {
        pairs_to_map(entries_model(self.entries@))
    }

    closed spec fn issued(&self) -> Set<Seq<char>> {
        self.issued_ids@
    }

    closed spec fn inv(&self) -> bool {
        &&& keys_distinct(entries_model(self.entries@))
        &&& forall|i: int|
            0 <= i < self.entries@.len() ==> (#[trigger] self.entries@[i]).1.data.wf()
        &&& all_digits(self.counter@)
        &&& forall|t: Seq<char>|
            self.issued_ids@.contains(t) ==> chars_val(#[trigger] t.skip(1), 0) < digits_val(
                self.counter@,
                0,
            )
    }

    fn load(&mut self, sid: &str, config: CookieOptions) -> (s: Session) {
        if verify_sid(sid) {
            proof {
                lemma_pairs_to_map_contains(entries_model(self.entries@), sid@);
            }
            let found = find_key(&self.entries, sid);
            match found {
                Some(i) => {
                    proof {
                        assert(entries_model(self.entries@)[i as int].0 == sid@);
                        lemma_pairs_to_map_index(entries_model(self.entries@), i as int);
                    }
                    let data_copy = self.entries[i].1.data.duplicate();
                    return Session::restore(sid, data_copy, config);
                },
                None => {
                    proof {
                        let sm = entries_model(self.entries@);
                        assert(forall|i: int| 0 <= i < sm.len() ==> (#[trigger] sm[i]).0 != sid@);
                        assert(!self.contents().contains_key(sid@));
                    }
                },
            }
        }
        let id = self.generate_id();
        Session::new(id.as_str(), Status::Created, config)
    }

    fn save(&mut self, id: &str, data: &Data, ttl_secs: u64) -> (r: Result<
        (),
        SessionError,
    >)
    // The in-memory backend never fails a write.
        ensures
            r is Ok,
    {
        proof {
            lemma_pairs_to_map_contains(entries_model(self.entries@), id@);
        }
        let ghost s0 = entries_model(old(self).entries@);
        let entry = StoredEntry { data: data.duplicate(), ttl_secs };
        let found = find_key(&self.entries, id);
        match found {
            Some(i) => {
                proof {
                    lemma_pairs_to_map_index(s0, i as int);
                }
                let (k0, _prev) = self.entries.remove(i);
                self.entries.insert(i, (k0, entry));
                proof {
                    let s1 = entries_model(self.entries@);
                    assert(self.entries@ =~= old(self).entries@.update(
                        i as int,
                        self.entries@[i as int],
                    ));
                    assert(s1 =~= s0.update(
                        i as int,
                        (id@, StoredModel { data: data@, ttl_secs }),
                    ));
                    lemma_pairs_to_map_update(s0, i as int, StoredModel { data: data@, ttl_secs });
                    assert(self.contents() =~= old(self).contents().insert(
                        id@,
                        StoredModel { data: data@, ttl_secs },
                    ));
                }
                Ok(())
            },
            None => {
                proof {
                    let sm = entries_model(self.entries@);
                    assert(forall|i: int| 0 <= i < sm.len() ==> (#[trigger] sm[i]).0 != id@);
                }
                self.entries.push((id.to_owned(), entry));
                proof {
                    let s1 = entries_model(self.entries@);
                    assert(s1 =~= s0.push((id@, StoredModel { data: data@, ttl_secs })));
                    assert(s1.drop_last() =~= s0);
                    assert(self.contents() =~= old(self).contents().insert(
                        id@,
                        StoredModel { data: data@, ttl_secs },
                    ));
                }
                Ok(())
            },
        }
    }

    fn remove(&mut self, id: &str) -> (r: Result<bool, SessionError>)
    // The in-memory backend never fails a removal.
        ensures
            r is Ok,
    {
        proof {
            lemma_pairs_to_map_contains(entries_model(self.entries@), id@);
        }
        let ghost s0 = entries_model(old(self).entries@);
        let found = find_key(&self.entries, id);
        match found {
            Some(i) => {
                proof {
                    lemma_pairs_to_map_index(s0, i as int);
                    lemma_pairs_to_map_remove(s0, i as int);
                }
                let _ = self.entries.remove(i);
                proof {
                    assert(entries_model(self.entries@) =~= s0.remove(i as int));
                    assert(self.contents() =~= old(self).contents().remove(id@));
                }
                Ok(true)
            },
            None => {
                proof {
                    let sm = entries_model(self.entries@);
                    assert(forall|i: int| 0 <= i < sm.len() ==> (#[trigger] sm[i]).0 != id@);
                    assert(self.contents() =~= old(self).contents().remove(id@));
                }
                Ok(false)
            },
        }
    }

    #[verifier::loop_isolation(false)]
    fn generate_id(&mut self) -> (id: String) {
        let mut s = String::from_str("s");
        proof {
            reveal_strlit("s");
        }
        let mut i: usize = 0;
        while i < self.counter.len()
            invariant
                i <= self.counter@.len(),
                s@.len() == 1 + i,
                s@[0] == 's',
                forall|j: int| 0 <= j < i ==> s@[j + 1] == digit_char(#[trigger] self.counter@[j]),
            decreases self.counter@.len() - i,
        {
            let dch = digit_str(self.counter[i]);
            s.append(dch);
            i = i + 1;
        }
        proof {
            let cs = s@.skip(1);
            assert(cs.len() == self.counter@.len());
            assert forall|j: int| 0 <= j < self.counter@.len() implies cs[j] == digit_char(
                #[trigger] self.counter@[j],
            ) by {
                assert(cs[j] == s@[j + 1]);
            }
            lemma_chars_of_digits(self.counter@, cs, 0);
            assert(chars_val(s@.skip(1), 0) == digits_val(self.counter@, 0));
            assert(!self.issued_ids@.contains(s@));
        }
        let ghost fresh_id = s@;
        inc_digits(&mut self.counter);
        proof {
            self.issued_ids@ = self.issued_ids@.insert(fresh_id);
        }
        proof {
            assert(entries_model(self.entries@) =~= entries_model(old(self).entries@));
            assert forall|t: Seq<char>| self.issued_ids@.contains(t) implies chars_val(
                #[trigger] t.skip(1),
                0,
            ) < digits_val(self.counter@, 0) by {
                if t != fresh_id {
                    assert(old(self).issued_ids@.contains(t));
                }
            }
        }
        s
    }
}

} // verus!
