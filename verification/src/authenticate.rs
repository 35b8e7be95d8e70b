//! The token store and the authentication service built on it.
//!
//! The store owns every issued token together with its bound IP address,
//! issuance time and lifecycle state. A token starts `Active` and makes a
//! single one-way transition to `Expired` once its age reaches the
//! configured time-to-live; the transition is recomputed lazily by a sweep
//! over the whole store before any read, never by a timer. Removal by
//! `revoke` is possible from either state.

use vstd::prelude::*;

use crate::config::AuthConfig;
use crate::text::dec_str;
use crate::text::str_eq;
use crate::text::u64_to_string;

verus! {

/// The lifecycle state of one token: `Active`, or `Expired` carrying how
/// many seconds the token has been overdue as of the last sweep.
#[derive(Clone, Copy, Debug, PartialEq, Eq, Structural)]
pub enum TokenStatus {
    Active,
    Expired(u64),
}

/// One stored token: its opaque value, the IP address of the client it was
/// issued to, the issuance time and the lifecycle state.
#[derive(Debug)]
pub struct TokenData {
    pub token: String,
    pub ip_address: String,
    pub created_at: u64,
    pub status: TokenStatus,
}

impl TokenData {
    /// A field-by-field copy.
    pub fn duplicate(&self) -> (r: TokenData)
        ensures
            r == *self,
    {
        TokenData {
            token: self.token.clone(),
            ip_address: self.ip_address.clone(),
            created_at: self.created_at,
            status: self.status,
        }
    }
}

/// No two stored entries share a token value.
pub open spec fn tokens_unique(s: Seq<TokenData>) -> bool {
    forall|i: int, j: int| 0 <= i < j < s.len() ==> s[i].token@ != s[j].token@
}

/// Whether some entry holds the token value `v`.
pub open spec fn has_token(s: Seq<TokenData>, v: Seq<char>) -> bool {
    exists|i: int| 0 <= i < s.len() && s[i].token@ == v
}

/// The entry holding the token value `v`, if any. With `tokens_unique`
/// there is at most one.
pub open spec fn spec_lookup(s: Seq<TokenData>, v: Seq<char>) -> Option<TokenData> {
    if has_token(s, v) {
        Some(s[choose|i: int| 0 <= i < s.len() && s[i].token@ == v])
    } else {
        None
    }
}

/// Under `tokens_unique`, an entry found at any index is the looked-up one.
pub proof fn lemma_lookup_at(s: Seq<TokenData>, i: int)
    requires
        tokens_unique(s),
        0 <= i < s.len(),
    ensures
        spec_lookup(s, s[i].token@) == Some(s[i]),
{
    let v = s[i].token@;
    assert(has_token(s, v));
    let j = choose|j: int| 0 <= j < s.len() && s[j].token@ == v;
    if i != j {
        assert(s[i].token@ != s[j].token@);
    }
}

/// One entry after a sweep at time `now` under time-to-live `ttl`: an entry
/// whose age has reached `ttl` is `Expired` with its current overdue time;
/// a younger entry is untouched, so an `Expired` entry stays `Expired` even
/// if the configured `ttl` has since grown.
pub open spec fn swept_entry(e: TokenData, now: u64, ttl: u64) -> TokenData {
    if now >= e.created_at + ttl {
        TokenData {
            token: e.token,
            ip_address: e.ip_address,
            created_at: e.created_at,
            status: TokenStatus::Expired(((now - e.created_at) - ttl) as u64),
        }
    } else {
        e
    }
}

/// The whole store after a sweep.
pub open spec fn spec_sweep(s: Seq<TokenData>, now: u64, ttl: u64) -> Seq<TokenData> {
    s.map_values(|e: TokenData| swept_entry(e, now, ttl))
}

/// The store without the entries holding token value `v` (at most one,
/// under `tokens_unique`), order kept.
pub open spec fn others(s: Seq<TokenData>, v: Seq<char>) -> Seq<TokenData> {
    s.filter(|e: TokenData| e.token@ != v)
}

proof fn lemma_has_push(s: Seq<TokenData>, e: TokenData, w: Seq<char>)
    ensures
        has_token(s.push(e), w) == (has_token(s, w) || e.token@ == w),
{
    if has_token(s, w) {
        let i = choose|i: int| 0 <= i < s.len() && s[i].token@ == w;
        assert(s.push(e)[i].token@ == w);
    }
    if e.token@ == w {
        assert(s.push(e)[s.len() as int].token@ == w);
    }
    if has_token(s.push(e), w) {
        let i = choose|i: int| 0 <= i < s.push(e).len() && s.push(e)[i].token@ == w;
        if i < s.len() {
            assert(s[i].token@ == w);
        }
    }
}

proof fn lemma_has_drop_last(s: Seq<TokenData>, w: Seq<char>)
    requires
        s.len() > 0,
    ensures
        has_token(s, w) == (has_token(s.drop_last(), w) || s.last().token@ == w),
{
    if has_token(s.drop_last(), w) {
        let i = choose|i: int| 0 <= i < s.drop_last().len() && s.drop_last()[i].token@ == w;
        assert(s[i].token@ == w);
    }
    if s.last().token@ == w {
        assert(s[s.len() - 1].token@ == w);
    }
    if has_token(s, w) {
        let i = choose|i: int| 0 <= i < s.len() && s[i].token@ == w;
        if i < s.len() - 1 {
            assert(s.drop_last()[i].token@ == w);
        }
    }
}

/// What removal does to a unique-keyed store: uniqueness is kept, `v` is
/// gone, every other token is untouched, and exactly the matching entry
/// (if any) leaves the count.
pub proof fn lemma_others(s: Seq<TokenData>, v: Seq<char>)
    requires
        tokens_unique(s),
    ensures
        tokens_unique(others(s, v)),
        !has_token(others(s, v), v),
        forall|w: Seq<char>|
            w != v ==> #[trigger] has_token(others(s, v), w) == has_token(s, w),
        others(s, v).len() == s.len() - (if has_token(s, v) {
            1int
        } else {
            0int
        }),
        forall|w: Seq<char>|
            w != v ==> #[trigger] spec_lookup(others(s, v), w) == spec_lookup(s, w),
    decreases s.len(),
{
    reveal(Seq::filter);
    if s.len() == 0 {
        assert(!has_token(s, v));
    } else {
        let pre = s.drop_last();
        let last = s.last();
        assert(tokens_unique(pre)) by {
            assert forall|i: int, j: int| 0 <= i < j < pre.len() implies pre[i].token@
                != pre[j].token@ by {
                assert(pre[i] == s[i] && pre[j] == s[j]);
            }
        }
        lemma_others(pre, v);
        lemma_has_drop_last(s, v);
        let o = others(pre, v);
        if last.token@ != v {
            assert(others(s, v) == o.push(last));
            // the pushed entry's token does not occur in `o`
            assert(!has_token(o, last.token@)) by {
                if has_token(pre, last.token@) {
                    let i = choose|i: int| 0 <= i < pre.len() && pre[i].token@ == last.token@;
                    assert(s[i].token@ == s[s.len() - 1].token@);
                }
            }
            assert forall|i: int, j: int| 0 <= i < j < o.push(last).len() implies o.push(
                last,
            )[i].token@ != o.push(last)[j].token@ by {
                if j == o.len() {
                    assert(o.push(last)[i] == o[i]);
                    assert(has_token(o, o[i].token@));
                }
            }
            lemma_has_push(o, last, v);
            assert forall|w: Seq<char>| w != v implies #[trigger] has_token(others(s, v), w)
                == has_token(s, w) by {
                lemma_has_push(o, last, w);
                lemma_has_drop_last(s, w);
                assert(has_token(others(pre, v), w) == has_token(pre, w));
            }
        } else {
            assert(others(s, v) == o);
            assert(has_token(s, v)) by {
                assert(s[s.len() - 1].token@ == v);
            }
            assert(!has_token(pre, v)) by {
                if has_token(pre, v) {
                    let i = choose|i: int| 0 <= i < pre.len() && pre[i].token@ == v;
                    assert(s[i].token@ == s[s.len() - 1].token@);
                }
            }
            assert forall|w: Seq<char>| w != v implies #[trigger] has_token(others(s, v), w)
                == has_token(s, w) by {
                lemma_has_drop_last(s, w);
            }
        }
    }
    // lookup agreement follows from membership agreement and uniqueness
    assert forall|w: Seq<char>| w != v implies #[trigger] spec_lookup(others(s, v), w)
        == spec_lookup(s, w) by {
        if has_token(others(s, v), w) {
            let i = choose|i: int| 0 <= i < others(s, v).len() && others(s, v)[i].token@ == w;
            lemma_lookup_at(others(s, v), i);
            lemma_filter_entry_in_source(s, v, i);
            let j = choose|j: int| 0 <= j < s.len() && s[j] == others(s, v)[i];
            lemma_lookup_at(s, j);
        }
    }
}

/// Removing an absent token value changes nothing.
pub proof fn lemma_others_absent(s: Seq<TokenData>, v: Seq<char>)
    requires
        !has_token(s, v),
    ensures
        others(s, v) == s,
    decreases s.len(),
{
    reveal(Seq::filter);
    if s.len() > 0 {
        assert(!has_token(s.drop_last(), v)) by {
            if has_token(s.drop_last(), v) {
                let i = choose|i: int| 0 <= i < s.drop_last().len() && s.drop_last()[i].token@ == v;
                assert(s[i].token@ == v);
            }
        }
        lemma_others_absent(s.drop_last(), v);
        assert(s[s.len() - 1].token@ != v) by {
            if s.last().token@ == v {
                assert(has_token(s, v));
            }
        }
        assert(others(s, v) =~= s);
    } else {
        assert(others(s, v) =~= s);
    }
}

/// Appending an entry with a fresh token value keeps the store unique.
pub proof fn lemma_unique_push(s: Seq<TokenData>, e: TokenData)
    requires
        tokens_unique(s),
        !has_token(s, e.token@),
    ensures
        tokens_unique(s.push(e)),
{
    assert forall|i: int, j: int| 0 <= i < j < s.push(e).len() implies s.push(e)[i].token@
        != s.push(e)[j].token@ by {
        if j == s.len() {
            assert(s.push(e)[i] == s[i]);
            assert(has_token(s, s[i].token@));
        }
    }
}

/// An entry of the filtered store is an entry of the store itself.
proof fn lemma_filter_entry_in_source(s: Seq<TokenData>, v: Seq<char>, i: int)
    requires
        0 <= i < others(s, v).len(),
    ensures
        exists|j: int| 0 <= j < s.len() && s[j] == others(s, v)[i],
    decreases s.len(),
{
    reveal(Seq::filter);
    if s.len() > 0 {
        let pre = s.drop_last();
        let last = s.last();
        if last.token@ != v && i == others(pre, v).len() {
            assert(s[s.len() - 1] == others(s, v)[i]);
        } else {
            lemma_filter_entry_in_source(pre, v, i);
            let j = choose|j: int| 0 <= j < pre.len() && pre[j] == others(pre, v)[i];
            assert(s[j] == others(s, v)[i]);
        }
    }
}

/// The outcome of validating a submitted token value.
#[derive(Clone, Copy, Debug, PartialEq, Eq, Structural)]
pub enum ValidationResult {
    /// No entry holds the value.
    NotFound,
    /// The entry is active and bound to the caller's address.
    Valid,
    /// The entry's age has passed the time-to-live, by this many seconds.
    Expired(u64),
    /// The entry is active but bound to a different address.
    IpMismatch,
}

/// The view of an optional borrowed string.
pub open spec fn opt_str_view(o: Option<&str>) -> Option<Seq<char>> {
    match o {
        Option::Some(s) => Option::Some(s@),
        Option::None => Option::None,
    }
}

/// The validation outcome for token value `v` against an already swept
/// store: absent values are `NotFound`; an expired entry reports how long
/// it has been overdue, whatever address is given; an active entry is
/// `Valid` unless an address is given that differs from the bound one.
pub open spec fn spec_validate(s: Seq<TokenData>, v: Seq<char>, ip: Option<Seq<char>>) -> ValidationResult {
    match spec_lookup(s, v) {
        Option::None => ValidationResult::NotFound,
        Option::Some(e) => match e.status {
            TokenStatus::Active => match ip {
                Option::Some(a) => (if a != e.ip_address@ {
                    ValidationResult::IpMismatch
                } else {
                    ValidationResult::Valid
                }),
                Option::None => ValidationResult::Valid,
            },
            TokenStatus::Expired(d) => ValidationResult::Expired(d),
        },
    }
}

/// The value of a token issued at time `now`.
pub open spec fn spec_token_value(now: u64) -> Seq<char> {
    "fake-token-"@ + dec_str(now as int)
}

/// The in-memory token store. It is not itself aware of threads; a shared
/// instance is expected to sit behind one exclusive lock, with every
/// operation completing while the lock is held.
pub struct TokenStore {
    tokens: Vec<TokenData>,
}

impl View for TokenStore {
    type V = Seq<TokenData>;

    closed spec fn view(&self) -> Seq<TokenData> {
        self.tokens@
    }
}

impl TokenStore {
    /// An empty store.
    pub fn new() -> (s: Self)
        ensures
            s@ == Seq::<TokenData>::empty(),
            tokens_unique(s@),
    {
        let s = TokenStore { tokens: Vec::new() };
        proof {
            assert(s@ =~= Seq::<TokenData>::empty());
        }
        s
    }

    /// The number of stored tokens, expired ones included.
    pub fn len(&self) -> (n: usize)
        ensures
            n == self@.len(),
    {
        self.tokens.len()
    }

    /// A snapshot of every stored entry, in insertion order.
    pub fn entries(&self) -> (r: Vec<TokenData>)
        ensures
            r@ == self@,
    {
        let mut out: Vec<TokenData> = Vec::new();
        let n = self.tokens.len();
        let mut i: usize = 0;
        while i < n
            invariant
                i <= n,
                n == self@.len(),
                out@ == self@.take(i as int),
            decreases n - i,
        {
            out.push(self.tokens[i].duplicate());
            proof {
                assert(out@ =~= self@.take(i + 1));
            }
            i += 1;
        }
        proof {
            assert(self@.take(n as int) =~= self@);
        }
        out
    }

    /// Marks every token whose age has reached `ttl` as expired, carrying
    /// its overdue time as of `now`; younger entries are untouched. This is
    /// the lazy pass that replaces a timer.
    pub fn sweep(&mut self, now: u64, ttl: u64)
        ensures
            final(self)@ == spec_sweep(old(self)@, now, ttl),
            tokens_unique(old(self)@) ==> tokens_unique(final(self)@),
    {
        let n = self.tokens.len();
        let mut i: usize = 0;
        while i < n
            invariant
                i <= n,
                n == self.tokens@.len(),
                self.tokens@.len() == old(self)@.len(),
                forall|k: int|
                    0 <= k < i ==> self.tokens@[k] == swept_entry(old(self)@[k], now, ttl),
                forall|k: int| i <= k < n ==> self.tokens@[k] == old(self)@[k],
            decreases n - i,
        {
            let created = self.tokens[i].created_at;
            if now >= created && now - created >= ttl {
                let overdue = (now - created) - ttl;
                let tok = self.tokens[i].token.clone();
                let ip = self.tokens[i].ip_address.clone();
                self.tokens.set(
                    i,
                    TokenData {
                        token: tok,
                        ip_address: ip,
                        created_at: created,
                        status: TokenStatus::Expired(overdue),
                    },
                );
            }
            i += 1;
        }
        proof {
            assert(self.tokens@ =~= spec_sweep(old(self)@, now, ttl));
            if tokens_unique(old(self)@) {
                assert forall|a: int, b: int|
                    0 <= a < b < self.tokens@.len() implies self.tokens@[a].token@
                    != self.tokens@[b].token@ by {
                    assert(self.tokens@[a].token == old(self)@[a].token);
                    assert(self.tokens@[b].token == old(self)@[b].token);
                }
            }
        }
    }

    /// The index of the entry holding token value `v`, if any.
    fn find_index(&self, value: &str) -> (r: Option<usize>)
        ensures
            match r {
                Option::Some(i) => i < self@.len() && self@[i as int].token@ == value@,
                Option::None => !has_token(self@, value@),
            },
    {
        let n = self.tokens.len();
        let mut i: usize = 0;
        while i < n
            invariant
                i <= n,
                n == self@.len(),
                forall|k: int| 0 <= k < i ==> self@[k].token@ != value@,
            decreases n - i,
        {
            if str_eq(self.tokens[i].token.as_str(), value) {
                return Option::Some(i);
            }
            i += 1;
        }
        Option::None
    }

    /// Removes the entry holding token value `v`, reporting whether one was
    /// present. Removing an absent value is a no-op that reports `false`.
    pub fn remove(&mut self, value: &str) -> (removed: bool)
        requires
            tokens_unique(old(self)@),
        ensures
            final(self)@ == others(old(self)@, value@),
            removed == has_token(old(self)@, value@),
            tokens_unique(final(self)@),
    {
        let mut kept: Vec<TokenData> = Vec::new();
        let mut removed = false;
        let n = self.tokens.len();
        let mut i: usize = 0;
        proof {
            reveal(Seq::filter);
            assert(old(self)@.take(0) =~= Seq::<TokenData>::empty());
        }
        while i < n
            invariant
                i <= n,
                n == self.tokens@.len(),
                self.tokens@ == old(self)@,
                kept@ == others(old(self)@.take(i as int), value@),
                removed == has_token(old(self)@.take(i as int), value@),
            decreases n - i,
        {
            let matches = str_eq(self.tokens[i].token.as_str(), value);
            proof {
                reveal(Seq::filter);
                let t1 = old(self)@.take(i + 1);
                assert(t1.drop_last() =~= old(self)@.take(i as int));
                assert(t1.last() == old(self)@[i as int]);
                lemma_has_drop_last(t1, value@);
            }
            if matches {
                removed = true;
            } else {
                kept.push(self.tokens[i].duplicate());
            }
            i += 1;
        }
        proof {
            assert(old(self)@.take(n as int) =~= old(self)@);
        }
        self.tokens = kept;
        proof {
            lemma_others(old(self)@, value@);
        }
        removed
    }

    /// Issues a new active token bound to `ip` at time `now`; the token
    /// value is derived from the issuance time. An entry already holding
    /// the same value (two issuances in one second) is replaced.
    pub fn issue(&mut self, ip: &str, now: u64) -> (token: String)
        requires
            tokens_unique(old(self)@),
        ensures
            token@ == spec_token_value(now),
            final(self)@ == others(old(self)@, spec_token_value(now)).push(final(self)@.last()),
            final(self)@.len() == others(old(self)@, spec_token_value(now)).len() + 1,
            final(self)@.last().token@ == spec_token_value(now),
            final(self)@.last().ip_address@ == ip@,
            final(self)@.last().created_at == now,
            final(self)@.last().status == TokenStatus::Active,
            tokens_unique(final(self)@),
    {
        let mut value = "fake-token-".to_owned();
        value.append(u64_to_string(now).as_str());
        let entry_token = value.clone();
        let ip_string = ip.to_owned();
        self.remove(value.as_str());
        let entry = TokenData {
            token: entry_token,
            ip_address: ip_string,
            created_at: now,
            status: TokenStatus::Active,
        };
        proof {
            lemma_others(old(self)@, spec_token_value(now));
            lemma_unique_push(self.tokens@, entry);
        }
        self.tokens.push(entry);
        value
    }

    /// Sweeps the store at `now` under `ttl`, then reports the validation
    /// outcome for `value` against the caller's address.
    pub fn validate(&mut self, value: &str, client_ip: Option<&str>, now: u64, ttl: u64) -> (r:
        ValidationResult)
        requires
            tokens_unique(old(self)@),
        ensures
            final(self)@ == spec_sweep(old(self)@, now, ttl),
            tokens_unique(final(self)@),
            r == spec_validate(final(self)@, value@, opt_str_view(client_ip)),
    {
        self.sweep(now, ttl);
        match self.find_index(value) {
            Option::None => ValidationResult::NotFound,
            Option::Some(i) => {
                proof {
                    lemma_lookup_at(self@, i as int);
                }
                match self.tokens[i].status {
                    TokenStatus::Active => match client_ip {
                        Option::Some(ip) => {
                            if !str_eq(self.tokens[i].ip_address.as_str(), ip) {
                                ValidationResult::IpMismatch
                            } else {
                                ValidationResult::Valid
                            }
                        },
                        Option::None => ValidationResult::Valid,
                    },
                    TokenStatus::Expired(d) => ValidationResult::Expired(d),
                }
            },
        }
    }
}

/// Law: the lifecycle of an active token under a fixed time-to-live.
/// Checked from its bound address, the token validates as `Valid` at any
/// time before `created_at + ttl`, and as `Expired` by exactly the overdue
/// amount from that moment on.
pub proof fn lemma_token_lifecycle(s: Seq<TokenData>, i: int, check: u64, ttl: u64)
    requires
        tokens_unique(s),
        0 <= i < s.len(),
        s[i].status is Active,
    ensures
        check < s[i].created_at + ttl ==> spec_validate(
            spec_sweep(s, check, ttl),
            s[i].token@,
            Option::Some(s[i].ip_address@),
        ) == ValidationResult::Valid,
        check >= s[i].created_at + ttl ==> spec_validate(
            spec_sweep(s, check, ttl),
            s[i].token@,
            Option::Some(s[i].ip_address@),
        ) == ValidationResult::Expired(((check - s[i].created_at) - ttl) as u64),
{
    let swept = spec_sweep(s, check, ttl);
    assert(tokens_unique(swept)) by {
        assert forall|a: int, b: int| 0 <= a < b < swept.len() implies swept[a].token@
            != swept[b].token@ by {
            assert(swept[a].token == s[a].token);
            assert(swept[b].token == s[b].token);
        }
    }
    assert(swept[i].token@ == s[i].token@);
    lemma_lookup_at(swept, i);
}

/// Law: the address check and the expiry check are independent axes.
/// While an active token is unexpired, validation from a different address
/// reports `IpMismatch`; once its age reaches the time-to-live, validation
/// reports `Expired` whatever address the caller presents.
pub proof fn lemma_ip_and_expiry_independent(
    s: Seq<TokenData>,
    i: int,
    check: u64,
    ttl: u64,
    ip: Seq<char>,
)
    requires
        tokens_unique(s),
        0 <= i < s.len(),
        s[i].status is Active,
    ensures
        check < s[i].created_at + ttl && ip != s[i].ip_address@ ==> spec_validate(
            spec_sweep(s, check, ttl),
            s[i].token@,
            Option::Some(ip),
        ) == ValidationResult::IpMismatch,
        check >= s[i].created_at + ttl ==> spec_validate(
            spec_sweep(s, check, ttl),
            s[i].token@,
            Option::Some(ip),
        ) == ValidationResult::Expired(((check - s[i].created_at) - ttl) as u64),
{
    let swept = spec_sweep(s, check, ttl);
    assert(tokens_unique(swept)) by {
        assert forall|a: int, b: int| 0 <= a < b < swept.len() implies swept[a].token@
            != swept[b].token@ by {
            assert(swept[a].token == s[a].token);
            assert(swept[b].token == s[b].token);
        }
    }
    assert(swept[i].token@ == s[i].token@);
    lemma_lookup_at(swept, i);
}

/// Law: revocation is idempotent. After a value has been removed it is no
/// longer present, so removing it again finds nothing, changes nothing and
/// reports `false` rather than erring.
pub proof fn lemma_revoke_idempotent(s: Seq<TokenData>, v: Seq<char>)
    requires
        tokens_unique(s),
    ensures
        !has_token(others(s, v), v),
        others(others(s, v), v) == others(s, v),
{
    lemma_others(s, v);
    lemma_others_absent(others(s, v), v);
}

/// A human-readable duration: hours, minutes and seconds, the leading
/// units omitted while they are zero.
pub open spec fn spec_format_duration(total: u64) -> Seq<char> {
    let h = total / 3600;
    let m = (total % 3600) / 60;
    let s = total % 60;
    if h > 0 {
        dec_str(h as int).push('h') + dec_str(m as int).push('m') + dec_str(s as int).push('s')
    } else if m > 0 {
        dec_str(m as int).push('m') + dec_str(s as int).push('s')
    } else {
        dec_str(s as int).push('s')
    }
}

/// Formats a duration given in seconds, such as `1h2m3s`, `2m3s` or `3s`.
pub fn format_duration(total_seconds: u64) -> (r: String)
    ensures
        r@ == spec_format_duration(total_seconds),
{
    let hours = total_seconds / 3600;
    let minutes = (total_seconds % 3600) / 60;
    let seconds = total_seconds % 60;
    if hours > 0 {
        let mut out = u64_to_string(hours);
        crate::text::push_char(&mut out, 'h');
        out.append(u64_to_string(minutes).as_str());
        crate::text::push_char(&mut out, 'm');
        out.append(u64_to_string(seconds).as_str());
        crate::text::push_char(&mut out, 's');
        assert(out@ =~= spec_format_duration(total_seconds));
        out
    } else if minutes > 0 {
        let mut out = u64_to_string(minutes);
        crate::text::push_char(&mut out, 'm');
        out.append(u64_to_string(seconds).as_str());
        crate::text::push_char(&mut out, 's');
        assert(out@ =~= spec_format_duration(total_seconds));
        out
    } else {
        let mut out = u64_to_string(seconds);
        crate::text::push_char(&mut out, 's');
        assert(out@ =~= spec_format_duration(total_seconds));
        out
    }
}

/// Masks the middle of a token value for display: the first and last five
/// characters joined by `***` when the token is longer than ten characters,
/// otherwise the token unchanged.
pub open spec fn spec_mask_token(t: Seq<char>) -> Seq<char> {
    if t.len() <= 10 {
        t
    } else {
        t.subrange(0, 5) + "***"@ + t.subrange(t.len() - 5, t.len() as int)
    }
}

/// Masks the middle of a token value with `***`, keeping the first and last
/// five characters, so listings do not reveal whole credentials.
pub fn mask_token(token: &str) -> (r: String)
    ensures
        r@ == spec_mask_token(token@),
{
    let n = token.unicode_len();
    if n <= 10 {
        token.to_owned()
    } else {
        let prefix = token.substring_char(0, 5);
        let suffix = token.substring_char(n - 5, n);
        let mut out = prefix.to_owned();
        out.append("***");
        out.append(suffix);
        assert(out@ =~= spec_mask_token(token@));
        out
    }
}

/// When a token issued at `created` under `ttl` expires, where that time
/// is representable.
pub open spec fn spec_expires_at(created: u64, ttl: u64) -> Option<u64> {
    if created + ttl <= u64::MAX {
        Option::Some((created + ttl) as u64)
    } else {
        Option::None
    }
}

/// A detailed status snapshot of one token, as reported to API callers.
#[derive(Debug)]
pub struct TokenStatusInfo {
    pub token: String,
    pub ip_address: String,
    pub created_at: u64,
    pub is_valid: bool,
    pub is_expired: bool,
    pub expired_time: Option<String>,
    pub expires_at: Option<u64>,
}

/// How a reported status snapshot must relate to the swept store: `e` is
/// the entry found, `res` the validation outcome against the caller's
/// address.
pub open spec fn status_info_matches(
    info: TokenStatusInfo,
    e: TokenData,
    res: ValidationResult,
    ttl: u64,
) -> bool {
    &&& info.token@ == e.token@
    &&& info.ip_address@ == e.ip_address@
    &&& info.created_at == e.created_at
    &&& info.is_valid == (res is Valid)
    &&& info.is_expired == (e.status is Expired)
    &&& (match e.status {
        TokenStatus::Active => info.expired_time is None,
        TokenStatus::Expired(d) => info.expired_time is Some && info.expired_time->0@
            == spec_format_duration(d),
    })
    &&& info.expires_at == spec_expires_at(e.created_at, ttl)
}

/// Checks a submitted token and reports its detailed status. An empty
/// value is rejected at once, without touching the store; otherwise the
/// store is swept at `now` under the configured time-to-live, the value is
/// looked up, and a snapshot of the found entry is returned.
pub fn check_token(
    store: &mut TokenStore,
    cfg: &AuthConfig,
    now: u64,
    token: &str,
    client_ip: Option<&str>,
) -> (r: Option<TokenStatusInfo>)
    requires
        tokens_unique(old(store)@),
    ensures
        tokens_unique(final(store)@),
        token@.len() == 0 ==> final(store)@ == old(store)@ && r is None,
        token@.len() > 0 ==> final(store)@ == spec_sweep(
            old(store)@,
            now,
            cfg.token_expiration_seconds,
        ),
        token@.len() > 0 ==> match spec_lookup(final(store)@, token@) {
            Option::None => r is None,
            Option::Some(e) => r is Some && status_info_matches(
                r->0,
                e,
                spec_validate(final(store)@, token@, opt_str_view(client_ip)),
                cfg.token_expiration_seconds,
            ),
        },
{
    if token.unicode_len() == 0 {
        return Option::None;
    }
    let ttl = cfg.token_expiration_seconds;
    store.sweep(now, ttl);
    match store.find_index(token) {
        Option::None => Option::None,
        Option::Some(i) => {
            proof {
                lemma_lookup_at(store@, i as int);
            }
            let created = store.tokens[i].created_at;
            let expires = if created <= u64::MAX - ttl {
                Option::Some(created + ttl)
            } else {
                Option::None
            };
            match store.tokens[i].status {
                TokenStatus::Active => {
                    let mismatch = match client_ip {
                        Option::Some(ip) => !str_eq(store.tokens[i].ip_address.as_str(), ip),
                        Option::None => false,
                    };
                    Option::Some(
                        TokenStatusInfo {
                            token: token.to_owned(),
                            ip_address: store.tokens[i].ip_address.clone(),
                            created_at: created,
                            is_valid: !mismatch,
                            is_expired: false,
                            expired_time: Option::None,
                            expires_at: expires,
                        },
                    )
                },
                TokenStatus::Expired(d) => Option::Some(
                    TokenStatusInfo {
                        token: token.to_owned(),
                        ip_address: store.tokens[i].ip_address.clone(),
                        created_at: created,
                        is_valid: false,
                        is_expired: true,
                        expired_time: Option::Some(format_duration(d)),
                        expires_at: expires,
                    },
                ),
            }
        },
    }
}

/// Whether a submitted token is valid: present, unexpired, and bound to
/// the caller's address where one is given. Sweeps the store first, except
/// for the empty value, which is rejected without a sweep.
pub fn validate_token(
    store: &mut TokenStore,
    cfg: &AuthConfig,
    now: u64,
    token: &str,
    client_ip: Option<&str>,
) -> (r: bool)
    requires
        tokens_unique(old(store)@),
    ensures
        tokens_unique(final(store)@),
        token@.len() == 0 ==> final(store)@ == old(store)@ && r == false,
        token@.len() > 0 ==> final(store)@ == spec_sweep(
            old(store)@,
            now,
            cfg.token_expiration_seconds,
        ) && r == (spec_validate(final(store)@, token@, opt_str_view(client_ip)) is Valid),
{
    match check_token(store, cfg, now, token, client_ip) {
        Option::Some(info) => info.is_valid,
        Option::None => false,
    }
}

/// The detailed status of a token, without an address check.
pub fn get_token_status(store: &mut TokenStore, cfg: &AuthConfig, now: u64, token: &str) -> (r:
    Option<TokenStatusInfo>)
    requires
        tokens_unique(old(store)@),
    ensures
        tokens_unique(final(store)@),
        token@.len() == 0 ==> final(store)@ == old(store)@ && r is None,
        token@.len() > 0 ==> final(store)@ == spec_sweep(
            old(store)@,
            now,
            cfg.token_expiration_seconds,
        ),
        token@.len() > 0 ==> match spec_lookup(final(store)@, token@) {
            Option::None => r is None,
            Option::Some(e) => r is Some && status_info_matches(
                r->0,
                e,
                spec_validate(final(store)@, token@, Option::None),
                cfg.token_expiration_seconds,
            ),
        },
{
    check_token(store, cfg, now, token, Option::None)
}

/// Revokes a token, whatever its lifecycle state, reporting whether an
/// entry was removed. Revoking an absent value reports `false` and leaves
/// the store as it was, so repeating a revocation is harmless.
pub fn revoke_token(store: &mut TokenStore, token: &str) -> (r: bool)
    requires
        tokens_unique(old(store)@),
    ensures
        final(store)@ == others(old(store)@, token@),
        r == has_token(old(store)@, token@),
        tokens_unique(final(store)@),
{
    store.remove(token)
}

/// The status text shown for one listed token.
pub open spec fn spec_status_text(st: TokenStatus) -> Seq<char> {
    match st {
        TokenStatus::Active => "active"@,
        TokenStatus::Expired(d) => "expired "@ + spec_format_duration(d),
    }
}

/// Sweeps the store, then lists every token as `(value, bound IP, status
/// text, expired?)`, expired entries included, in insertion order.
pub fn list_valid_tokens(store: &mut TokenStore, cfg: &AuthConfig, now: u64) -> (r: Vec<
    (String, String, String, bool),
>)
    requires
        tokens_unique(old(store)@),
    ensures
        final(store)@ == spec_sweep(old(store)@, now, cfg.token_expiration_seconds),
        tokens_unique(final(store)@),
        r@.len() == final(store)@.len(),
        forall|i: int|
            0 <= i < r@.len() ==> {
                &&& (#[trigger] r@[i]).0@ == final(store)@[i].token@
                &&& r@[i].1@ == final(store)@[i].ip_address@
                &&& r@[i].2@ == spec_status_text(final(store)@[i].status)
                &&& r@[i].3 == (final(store)@[i].status is Expired)
            },
{
    store.sweep(now, cfg.token_expiration_seconds);
    let n = store.tokens.len();
    let mut out: Vec<(String, String, String, bool)> = Vec::new();
    let mut i: usize = 0;
    while i < n
        invariant
            i <= n,
            n == store.tokens@.len(),
            store@ == store.tokens@,
            out@.len() == i,
            forall|k: int|
                0 <= k < i ==> {
                    &&& (#[trigger] out@[k]).0@ == store.tokens@[k].token@
                    &&& out@[k].1@ == store.tokens@[k].ip_address@
                    &&& out@[k].2@ == spec_status_text(store.tokens@[k].status)
                    &&& out@[k].3 == (store.tokens@[k].status is Expired)
                },
        decreases n - i,
    {
        let value = store.tokens[i].token.clone();
        let ip = store.tokens[i].ip_address.clone();
        let (text, expired) = match store.tokens[i].status {
            TokenStatus::Active => ("active".to_owned(), false),
            TokenStatus::Expired(d) => {
                let mut t = "expired ".to_owned();
                t.append(format_duration(d).as_str());
                (t, true)
            },
        };
        out.push((value, ip, text, expired));
        i += 1;
    }
    out
}

/// A password-check request: the submitted secret and, where the transport
/// knows it, the caller's address.
#[derive(Debug)]
pub struct AuthenticateRequest {
    pub password: String,
    pub client_ip: Option<String>,
}

/// The outcome of a password check: on success the newly issued token.
#[derive(Debug)]
pub struct AuthenticateResponse {
    pub success: bool,
    pub message: String,
    pub token: Option<String>,
}

/// The message announcing a freshly issued token, showing it masked.
pub open spec fn spec_auth_success_message(mask: Seq<char>, when: Seq<char>) -> Seq<char> {
    "password accepted\ntoken: "@ + mask + "\nexpires at: "@ + when
}

/// Checks the submitted password against the configured secret, read fresh
/// from `cfg` so configuration changes apply at once. On a match a new
/// token bound to the caller's address (or `unknown`) is issued and
/// returned, announced with its masked value and a host-formatted expiry
/// time; on a mismatch nothing changes and no token is returned.
pub fn authenticate_password(
    store: &mut TokenStore,
    cfg: &AuthConfig,
    now: u64,
    password: &str,
    client_ip: Option<&str>,
) -> (r: AuthenticateResponse)
    requires
        tokens_unique(old(store)@),
    ensures
        tokens_unique(final(store)@),
        r.success == (password@ == cfg.password@),
        password@ != cfg.password@ ==> r.token is None && final(store)@ == old(store)@
            && r.message@ == "wrong password"@,
        password@ == cfg.password@ ==> {
            &&& r.token is Some
            &&& r.token->0@ == spec_token_value(now)
            &&& final(store)@ == others(old(store)@, spec_token_value(now)).push(
                final(store)@.last(),
            )
            &&& final(store)@.last().token@ == spec_token_value(now)
            &&& final(store)@.last().ip_address@ == (match client_ip {
                Option::Some(ip) => ip@,
                Option::None => "unknown"@,
            })
            &&& final(store)@.last().created_at == now
            &&& final(store)@.last().status is Active
            &&& exists|when: Seq<char>|
                r.message@ == spec_auth_success_message(
                    spec_mask_token(spec_token_value(now)),
                    when,
                )
        },
{
    let matched = str_eq(password, cfg.password.as_str());
    if matched {
        let ip = match client_ip {
            Option::Some(s) => s,
            Option::None => "unknown",
        };
        let token = store.issue(ip, now);
        let masked = mask_token(token.as_str());
        let ttl = cfg.token_expiration_seconds;
        let expiry = if now <= u64::MAX - ttl {
            now + ttl
        } else {
            u64::MAX
        };
        let when = match crate::host::format_local_timestamp(expiry) {
            Option::Some(s) => s,
            Option::None => "unknown time".to_owned(),
        };
        let mut message = "password accepted\ntoken: ".to_owned();
        message.append(masked.as_str());
        message.append("\nexpires at: ");
        message.append(when.as_str());
        proof {
            assert(message@ =~= spec_auth_success_message(
                spec_mask_token(spec_token_value(now)),
                when@,
            ));
        }
        AuthenticateResponse { success: true, message, token: Option::Some(token) }
    } else {
        AuthenticateResponse {
            success: false,
            message: "wrong password".to_owned(),
            token: Option::None,
        }
    }
}

/// One token as shown by the management command: full and masked values,
/// bound address, host-formatted creation and expiry times, and status.
#[derive(Debug)]
pub struct TokenDisplayInfo {
    pub token: String,
    pub token_masked: String,
    pub ip_address: String,
    pub created_at: String,
    pub expires_at: String,
    pub status: String,
    pub is_expired: bool,
}

/// How a display row must relate to its swept entry. The two formatted
/// times come from the host's time zone, so nothing is promised of them.
pub open spec fn display_matches(e: TokenData, d: TokenDisplayInfo) -> bool {
    &&& d.token@ == e.token@
    &&& d.token_masked@ == spec_mask_token(e.token@)
    &&& d.ip_address@ == e.ip_address@
    &&& d.is_expired == (e.status is Expired)
    &&& (match e.status {
        TokenStatus::Active => d.status@ == "valid"@,
        TokenStatus::Expired(dur) => d.status@ == "expired "@ + spec_format_duration(dur),
    })
}

/// Sweeps the store, then reports every token with masked value and
/// host-formatted creation and expiry times, in insertion order.
pub fn get_token_details(store: &mut TokenStore, cfg: &AuthConfig, now: u64) -> (r: Vec<
    TokenDisplayInfo,
>)
    requires
        tokens_unique(old(store)@),
    ensures
        final(store)@ == spec_sweep(old(store)@, now, cfg.token_expiration_seconds),
        tokens_unique(final(store)@),
        r@.len() == final(store)@.len(),
        forall|i: int| 0 <= i < r@.len() ==> display_matches(final(store)@[i], #[trigger] r@[i]),
{
    let ttl = cfg.token_expiration_seconds;
    store.sweep(now, ttl);
    let n = store.tokens.len();
    let mut out: Vec<TokenDisplayInfo> = Vec::new();
    let mut i: usize = 0;
    while i < n
        invariant
            i <= n,
            n == store.tokens@.len(),
            store@ == store.tokens@,
            out@.len() == i,
            forall|k: int|
                0 <= k < i ==> display_matches(store.tokens@[k], #[trigger] out@[k]),
        decreases n - i,
    {
        let value = store.tokens[i].token.clone();
        let created = store.tokens[i].created_at;
        let masked = mask_token(value.as_str());
        let created_text = match crate::host::format_local_timestamp(created) {
            Option::Some(s) => s,
            Option::None => "unknown time".to_owned(),
        };
        let expiry = if created <= u64::MAX - ttl {
            created + ttl
        } else {
            u64::MAX
        };
        let expires_text = match crate::host::format_local_timestamp(expiry) {
            Option::Some(s) => s,
            Option::None => "unknown time".to_owned(),
        };
        let (status_text, expired) = match store.tokens[i].status {
            TokenStatus::Active => ("valid".to_owned(), false),
            TokenStatus::Expired(d) => {
                let mut t = "expired ".to_owned();
                t.append(format_duration(d).as_str());
                (t, true)
            },
        };
        out.push(
            TokenDisplayInfo {
                token: value,
                token_masked: masked,
                ip_address: store.tokens[i].ip_address.clone(),
                created_at: created_text,
                expires_at: expires_text,
                status: status_text,
                is_expired: expired,
            },
        );
        i += 1;
    }
    out
}

} // verus!
