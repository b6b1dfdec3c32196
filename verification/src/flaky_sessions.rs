//! A session registry: sessions are created under consecutive identifiers,
//! can be revoked, and are valid while they exist and have not been revoked.
//!
//! Identifiers are the letter `s` followed by the decimal numeral of a
//! counter. The registry keys its sessions by the counter value and reads the
//! number back out of an identifier when one is presented.

use vstd::prelude::*;
use std::collections::BTreeMap;

verus! {

broadcast use vstd::std_specs::btree::group_btree_axioms;

pub type SessionId = String;

#[derive(Debug)]
pub struct Session {
    pub user: String,
    pub active: bool,
}

#[verifier::ext_equal]
pub struct SessionView {
    pub user: Seq<char>,
    pub active: bool,
}

impl View for Session {
    type V = SessionView;

    open spec fn view(&self) -> SessionView {
        SessionView { user: self.user@, active: self.active }
    }
}

impl Clone for Session {
    fn clone(&self) -> (copy: Self)
        ensures
            copy == *self,
    {
        Session { user: self.user.clone(), active: self.active }
    }
}

/// Whether `c` is one of the ten decimal digits.
pub open spec fn is_digit(c: char) -> bool {
    48 <= c as u32 <= 57
}

/// The value of the digit `c`.
pub open spec fn digit_value(c: char) -> nat {
    (c as u32 - 48) as nat
}

/// The digit that stands for `d`, for `d` below ten.
pub open spec fn digit_char(d: nat) -> char {
    ((d + 48) as u8) as char
}

/// The decimal numeral of `n`, without leading zeros.
pub open spec fn decimal(n: nat) -> Seq<char>
    decreases n,
{
    if n < 10 {
        seq![digit_char(n)]
    } else {
        decimal(n / 10).push(digit_char(n % 10))
    }
}

/// The identifier of the session with number `n`.
pub open spec fn session_label(n: nat) -> Seq<char> {
    seq!['s'] + decimal(n)
}

/// The number that the digits of `s` denote, read from the left.
pub open spec fn decimal_value(s: Seq<char>) -> nat
    decreases s.len(),
{
    if s.len() == 0 {
        0
    } else {
        decimal_value(s.drop_last()) * 10 + digit_value(s.last())
    }
}

/// Whether `s` is the numeral of some number: digits only, at least one, and
/// no leading zero before another digit.
pub open spec fn is_numeral(s: Seq<char>) -> bool {
    &&& s.len() >= 1
    &&& forall|i: int| 0 <= i < s.len() ==> is_digit(#[trigger] s[i])
    &&& (s.len() > 1 ==> s[0] != '0')
}

/// The number of the session that `id` names, if `id` is an identifier.
pub open spec fn label_number(id: Seq<char>) -> Option<nat> {
    if id.len() >= 2 && id[0] == 's' && is_numeral(id.skip(1)) {
        Some(decimal_value(id.skip(1)))
    } else {
        None
    }
}

/// A digit stands for its own value.
pub proof fn lemma_digit_round_trip(c: char)
    requires
        is_digit(c),
    ensures
        digit_value(c) < 10,
        digit_char(digit_value(c)) == c,
{
}

/// A numeral is made of digits, has no leading zero, and denotes its number.
pub proof fn lemma_decimal_is_numeral(n: nat)
    ensures
        is_numeral(decimal(n)),
        decimal_value(decimal(n)) == n,
        n > 0 ==> decimal(n)[0] != '0',
    decreases n,
{
    if n < 10 {
        assert(decimal(n).drop_last() =~= Seq::empty());
        assert(decimal_value(Seq::<char>::empty()) == 0);
    } else {
        lemma_decimal_is_numeral(n / 10);
        assert(decimal(n).drop_last() =~= decimal(n / 10));
    }
}

/// Every numeral is the numeral of the number that it denotes.
pub proof fn lemma_numeral_is_decimal(s: Seq<char>)
    requires
        is_numeral(s),
    ensures
        decimal(decimal_value(s)) == s,
        s.len() > 1 ==> decimal_value(s) >= 10,
        s.len() == 1 ==> decimal_value(s) < 10,
    decreases s.len(),
{
    lemma_digit_round_trip(s.last());
    if s.len() == 1 {
        assert(s.drop_last() =~= Seq::empty());
        assert(decimal_value(Seq::<char>::empty()) == 0);
    } else {
        lemma_numeral_is_decimal(s.drop_last());
    }
}

/// The digits of a prefix denote no more than the digits of the whole.
pub proof fn lemma_prefix_denotes_less(s: Seq<char>, len: int)
    requires
        0 <= len <= s.len(),
        forall|i: int| 0 <= i < s.len() ==> is_digit(#[trigger] s[i]),
    ensures
        decimal_value(s.take(len)) <= decimal_value(s),
    decreases s.len() - len,
{
    if len < s.len() {
        assert(s.drop_last().take(len) =~= s.take(len));
        lemma_prefix_denotes_less(s.drop_last(), len);
    } else {
        assert(s.take(len) =~= s);
    }
}

/// `label_number` inverts `session_label`: an identifier names the session
/// with number `n` exactly when it is the label of `n`.
pub proof fn lemma_label_number(id: Seq<char>, n: nat)
    ensures
        label_number(id) == Some(n) <==> id == session_label(n),
{
    if id == session_label(n) {
        lemma_decimal_is_numeral(n);
        assert(id.skip(1) =~= decimal(n));
    }
    if label_number(id) == Some(n) {
        lemma_numeral_is_decimal(id.skip(1));
        assert(id =~= seq!['s'] + id.skip(1));
    }
}

/// Distinct sessions have distinct identifiers.
pub proof fn lemma_labels_are_distinct(a: nat, b: nat)
    ensures
        session_label(a) == session_label(b) ==> a == b,
{
    lemma_label_number(session_label(a), a);
    lemma_label_number(session_label(b), b);
}

/// The one-character string of the digit `d`.
fn digit_str(d: u64) -> (s: &'static str)
    requires
        d < 10,
    ensures
        s@ == seq![digit_char(d as nat)],
{
    proof {
        reveal_strlit("0");
        reveal_strlit("1");
        reveal_strlit("2");
        reveal_strlit("3");
        reveal_strlit("4");
        reveal_strlit("5");
        reveal_strlit("6");
        reveal_strlit("7");
        reveal_strlit("8");
        reveal_strlit("9");
    }
    if d == 0 {
        "0"
    } else if d == 1 {
        "1"
    } else if d == 2 {
        "2"
    } else if d == 3 {
        "3"
    } else if d == 4 {
        "4"
    } else if d == 5 {
        "5"
    } else if d == 6 {
        "6"
    } else if d == 7 {
        "7"
    } else if d == 8 {
        "8"
    } else {
        "9"
    }
}

/// The decimal numeral of `n` as a string.
fn decimal_string(n: u64) -> (numeral: String)
    ensures
        numeral@ == decimal(n as nat),
    decreases n,
{
    if n < 10 {
        String::from_str(digit_str(n))
    } else {
        let mut numeral = decimal_string(n / 10);
        numeral.append(digit_str(n % 10));
        numeral
    }
}

/// The identifier of the session with number `n`.
pub fn session_id(n: u64) -> (id: SessionId)
    ensures
        id@ == session_label(n as nat),
{
    proof {
        reveal_strlit("s");
    }
    let mut id = String::from_str("s");
    let numeral = decimal_string(n);
    id.append(numeral.as_str());
    id
}

/// Reads the session number out of an identifier. Anything that is not the
/// label of a number that fits in 64 bits names no session.
pub fn session_number(id: &str) -> (number: Option<u64>)
    ensures
        match number {
            Some(n) => id@ == session_label(n as nat),
            None => forall|n: u64| id@ != #[trigger] session_label(n as nat),
        },
{
    let len = id.unicode_len();
    if len < 2 {
        proof {
            assert forall|n: u64| id@ != #[trigger] session_label(n as nat) by {
                lemma_decimal_is_numeral(n as nat);
            }
        }
        return None;
    }
    let ghost digits = id@.skip(1);
    if id.get_char(0) != 's' {
        return None;
    }
    if len > 2 && id.get_char(1) == '0' {
        proof {
            assert forall|n: u64| id@ != #[trigger] session_label(n as nat) by {
                if id@ == session_label(n as nat) {
                    lemma_label_number(id@, n as nat);
                }
            }
        }
        return None;
    }
    let mut value: u64 = 0;
    let mut i: usize = 1;
    while i < len
        invariant
            1 <= i <= len,
            len == id@.len(),
            len >= 2,
            digits == id@.skip(1),
            id@[0] == 's',
            len > 2 ==> id@[1] != '0',
            forall|j: int| 0 <= j < i - 1 ==> is_digit(#[trigger] digits[j]),
            value == decimal_value(digits.take(i - 1)),
        decreases len - i,
    {
        let c = id.get_char(i);
        let code = c as u32;
        if code < 48 || code > 57 {
            proof {
                assert forall|n: u64| id@ != #[trigger] session_label(n as nat) by {
                    if id@ == session_label(n as nat) {
                        lemma_label_number(id@, n as nat);
                        assert(is_digit(digits[i - 1]));
                    }
                }
            }
            return None;
        }
        let d = (code - 48) as u64;
        proof {
            assert(digits.take(i as int).drop_last() =~= digits.take(i - 1));
        }
        if value > (u64::MAX - d) / 10 {
            proof {
                assert forall|n: u64| id@ != #[trigger] session_label(n as nat) by {
                    if id@ == session_label(n as nat) {
                        lemma_label_number(id@, n as nat);
                        lemma_prefix_denotes_less(digits, i as int);
                    }
                }
            }
            return None;
        }
        value = value * 10 + d;
        i += 1;
    }
    proof {
        assert(digits.take(len - 1) =~= digits);
        lemma_label_number(id@, value as nat);
    }
    Some(value)
}

/// Every session created so far, and the number of the next one.
#[derive(Debug)]
pub struct State {
    sessions: BTreeMap<u64, Session>,
    next_id: u64,
}

#[verifier::ext_equal]
pub struct StateView {
    pub sessions: Map<Seq<char>, SessionView>,
    pub next_id: nat,
}

impl View for State {
    type V = StateView;

    closed spec fn view(&self) -> StateView {
        StateView {
            sessions: Map::new(
                |id: Seq<char>|
                    label_number(id) matches Some(n) && n <= u64::MAX && self.sessions@.contains_key(
                        n as u64,
                    ),
                |id: Seq<char>| self.sessions@[label_number(id)->0 as u64]@,
            ),
            next_id: self.next_id as nat,
        }
    }
}

impl Default for State {
    fn default() -> (state: Self)
        ensures
            state@.sessions == Map::<Seq<char>, SessionView>::empty(),
            state@.next_id == 0,
    {
        State::new()
    }
}

impl State {
    /// A registry without sessions.
    pub fn new() -> (state: Self)
        ensures
            state@.sessions == Map::<Seq<char>, SessionView>::empty(),
            state@.next_id == 0,
    {
        State { sessions: BTreeMap::new(), next_id: 0 }
    }

    /// Opens an active session for `user` under the next identifier.
    pub fn create(&mut self, user: String) -> (id: SessionId)
        requires
            old(self)@.next_id < u64::MAX,
        ensures
            id@ == session_label(old(self)@.next_id),
            final(self)@.next_id == old(self)@.next_id + 1,
            final(self)@.sessions == old(self)@.sessions.insert(
                id@,
                SessionView { user: user@, active: true },
            ),
    {
        let number = self.next_id;
        let id = session_id(number);
        self.next_id += 1;
        let session = Session { user, active: true };
        proof {
            lemma_integer_keys_are_ordered();
        }
        self.sessions.insert(number, session);
        proof {
            old(self).lemma_insert_by_label(*self, number, session);
        }
        id
    }

    /// Marks the session that `session_id` names as no longer active. An
    /// identifier that names no session changes nothing.
    pub fn revoke(&mut self, session_id: &str)
        ensures
            final(self)@.next_id == old(self)@.next_id,
            final(self)@.sessions == if old(self)@.sessions.contains_key(session_id@) {
                old(self)@.sessions.insert(
                    session_id@,
                    SessionView { user: old(self)@.sessions[session_id@].user, active: false },
                )
            } else {
                old(self)@.sessions
            },
    {
        proof {
            lemma_integer_keys_are_ordered();
        }
        match session_number(session_id) {
            Some(number) => {
                proof {
                    lemma_label_number(session_id@, number as nat);
                }
                let revoked = match self.sessions.get(&number) {
                    Some(session) => Some(Session { user: session.user.clone(), active: false }),
                    None => None,
                };
                if let Some(session) = revoked {
                    self.sessions.insert(number, session);
                    proof {
                        old(self).lemma_insert_by_label(*self, number, session);
                    }
                }
            },
            None => {
                proof {
                    self.lemma_only_labels_name_sessions(session_id@);
                }
            },
        }
    }

    /// Whether `session_id` names a session that is still active.
    pub fn validate(&self, session_id: &str) -> (valid: bool)
        ensures
            valid == (self@.sessions.contains_key(session_id@)
                && self@.sessions[session_id@].active),
    {
        proof {
            lemma_integer_keys_are_ordered();
        }
        match session_number(session_id) {
            Some(number) => {
                proof {
                    lemma_label_number(session_id@, number as nat);
                }
                match self.sessions.get(&number) {
                    Some(session) => session.active,
                    None => false,
                }
            },
            None => {
                proof {
                    self.lemma_only_labels_name_sessions(session_id@);
                }
                false
            },
        }
    }

    /// Storing `session` under `number` stores its view under the label of
    /// `number`, and leaves every other identifier as it was.
    proof fn lemma_insert_by_label(self, after: State, number: u64, session: Session)
        requires
            after.sessions@ == self.sessions@.insert(number, session),
        ensures
            after@.sessions == self@.sessions.insert(session_label(number as nat), session@),
    {
        let expected = self@.sessions.insert(session_label(number as nat), session@);
        lemma_label_number(session_label(number as nat), number as nat);
        assert forall|key: Seq<char>| #[trigger]
            after@.sessions.contains_key(key) == expected.contains_key(key) by {
            lemma_label_number(key, number as nat);
        }
        assert forall|key: Seq<char>| #[trigger]
            after@.sessions.contains_key(key) implies after@.sessions[key] == expected[key] by {
            lemma_label_number(key, number as nat);
        }
        assert(after@.sessions =~= expected);
    }

    /// An identifier that is the label of no 64-bit number names no session.
    proof fn lemma_only_labels_name_sessions(self, id: Seq<char>)
        requires
            forall|n: u64| id != #[trigger] session_label(n as nat),
        ensures
            !self@.sessions.contains_key(id),
    {
        if label_number(id) is Some {
            let n = label_number(id)->0;
            lemma_label_number(id, n);
            if n <= u64::MAX {
                assert(id == session_label((n as u64) as nat));
            }
        }
    }
}

/// The registry's keys are integers, whose order the map can rely on.
proof fn lemma_integer_keys_are_ordered()
    ensures
        vstd::laws_cmp::obeys_cmp::<u64>(),
{
    broadcast use vstd::laws_cmp::group_laws_cmp;

}

} // verus!
