//! The command registry: a mapping from command names and aliases to the
//! built-in command kinds. It is built once at startup and read-only
//! afterwards; resolution is a case-insensitive exact match on the first
//! registered entry for a name.

use vstd::prelude::*;

use crate::commands::CommandKind;
use crate::commands::spec_kind_aliases;
use crate::commands::spec_kind_name;
use crate::text::lower;
use crate::text::str_eq;
use crate::text::to_lowercase;

verus! {

/// The canonical name followed by the aliases of a command kind.
pub open spec fn spec_kind_names(k: CommandKind) -> Seq<Seq<char>> {
    seq![spec_kind_name(k)] + spec_kind_aliases(k)
}

/// The registry entries a kind contributes: each of its names mapped to it.
pub open spec fn spec_entries_of(k: CommandKind) -> Seq<(Seq<char>, CommandKind)> {
    spec_kind_names(k).map_values(|n: Seq<char>| (n, k))
}

/// Whether some entry is registered under `n`.
pub open spec fn spec_contains_name(entries: Seq<(Seq<char>, CommandKind)>, n: Seq<char>) -> bool {
    exists|i: int| 0 <= i < entries.len() && entries[i].0 == n
}

/// The first entry registered under `name`, if any.
pub open spec fn spec_resolve_in(
    entries: Seq<(Seq<char>, CommandKind)>,
    name: Seq<char>,
) -> Option<CommandKind>
    decreases entries.len(),
{
    if entries.len() == 0 {
        Option::None
    } else if entries[0].0 == name {
        Option::Some(entries[0].1)
    } else {
        spec_resolve_in(entries.drop_first(), name)
    }
}

/// Resolution skips over entries whose name does not match.
pub proof fn lemma_resolve_skip(entries: Seq<(Seq<char>, CommandKind)>, name: Seq<char>, i: int)
    requires
        0 <= i <= entries.len(),
        forall|k: int| 0 <= k < i ==> entries[k].0 != name,
    ensures
        spec_resolve_in(entries, name) == spec_resolve_in(entries.skip(i), name),
    decreases i,
{
    if i > 0 {
        assert(entries.drop_first() =~= entries.skip(1));
        lemma_resolve_skip(entries.skip(1), name, i - 1);
        assert(entries.skip(1).skip(i - 1) =~= entries.skip(i));
    } else {
        assert(entries.skip(0) =~= entries);
    }
}

/// The registry: name-to-kind entries in registration order. Duplicate
/// names never arise through `register_command`, which refuses them.
pub struct CommandRegistry {
    entries: Vec<(String, CommandKind)>,
}

impl View for CommandRegistry {
    type V = Seq<(Seq<char>, CommandKind)>;

    closed spec fn view(&self) -> Seq<(Seq<char>, CommandKind)> {
        self.entries@.map_values(|p: (String, CommandKind)| (p.0@, p.1))
    }
}

impl CommandRegistry {
    /// An empty registry.
    pub fn new() -> (r: Self)
        ensures
            r@ == Seq::<(Seq<char>, CommandKind)>::empty(),
    {
        let r = CommandRegistry { entries: Vec::new() };
        proof {
            assert(r@ =~= Seq::<(Seq<char>, CommandKind)>::empty());
        }
        r
    }

    /// Adds one name for a kind, unchecked.
    fn add_entry(&mut self, name: &str, kind: CommandKind)
        ensures
            final(self)@ == old(self)@.push((name@, kind)),
    {
        self.entries.push((name.to_owned(), kind));
        proof {
            assert(self@ =~= old(self)@.push((name@, kind)));
        }
    }

    /// Whether any entry is registered under exactly `name`.
    pub fn contains_name(&self, name: &str) -> (r: bool)
        ensures
            r == spec_contains_name(self@, name@),
    {
        let n = self.entries.len();
        let mut i: usize = 0;
        while i < n
            invariant
                i <= n,
                n == self.entries@.len(),
                self@.len() == n,
                forall|k: int| 0 <= k < i ==> (#[trigger] self@[k]).0 != name@,
            decreases n - i,
        {
            if str_eq(self.entries[i].0.as_str(), name) {
                proof {
                    assert(self@[i as int].0 == name@);
                }
                return true;
            }
            i += 1;
        }
        false
    }

    /// Case-insensitive lookup: the input is lower-cased and matched
    /// exactly against the registered names, first registration winning.
    pub fn resolve(&self, name: &str) -> (r: Option<CommandKind>)
        ensures
            r == spec_resolve_in(self@, lower(name@)),
    {
        let lowered = to_lowercase(name);
        let n = self.entries.len();
        let mut i: usize = 0;
        while i < n
            invariant
                i <= n,
                n == self.entries@.len(),
                self@.len() == n,
                lowered@ == lower(name@),
                forall|k: int| 0 <= k < i ==> (#[trigger] self@[k]).0 != lowered@,
            decreases n - i,
        {
            if str_eq(self.entries[i].0.as_str(), lowered.as_str()) {
                proof {
                    lemma_resolve_skip(self@, lowered@, i as int);
                    assert(self@.skip(i as int)[0] == self@[i as int]);
                }
                return Option::Some(self.entries[i].1);
            }
            i += 1;
        }
        proof {
            lemma_resolve_skip(self@, lowered@, n as int);
            assert(self@.skip(n as int) =~= Seq::<(Seq<char>, CommandKind)>::empty());
        }
        Option::None
    }
}

/// The entries of the standard registry: every built-in command under its
/// canonical name and aliases, in registration order, followed by the
/// direct shortcut names that invoke the `enter` command.
pub open spec fn spec_standard_entries() -> Seq<(Seq<char>, CommandKind)> {
    seq![
        ("help"@, CommandKind::Help),
        ("h"@, CommandKind::Help),
        ("?"@, CommandKind::Help),
        ("password"@, CommandKind::Password),
        ("pass"@, CommandKind::Password),
        ("p"@, CommandKind::Password),
        ("login"@, CommandKind::Password),
        ("system"@, CommandKind::System),
        ("sys"@, CommandKind::System),
        ("info"@, CommandKind::System),
        ("status"@, CommandKind::System),
        ("echo"@, CommandKind::Echo),
        ("e"@, CommandKind::Echo),
        ("print"@, CommandKind::Echo),
        ("token"@, CommandKind::Token),
        ("tokens"@, CommandKind::Token),
        ("t"@, CommandKind::Token),
        ("tokenlist"@, CommandKind::Token),
        ("enter"@, CommandKind::Enter),
        ("goto"@, CommandKind::Enter),
        ("open"@, CommandKind::Enter),
        ("home"@, CommandKind::Enter),
        ("git"@, CommandKind::Enter),
        ("tv"@, CommandKind::Enter),
        ("admin"@, CommandKind::Enter),
    ]
}

impl CommandRegistry {
    /// The registry the dispatcher consults: all built-in commands with
    /// their aliases, and the shortcut names of the jump targets.
    pub fn standard() -> (r: CommandRegistry)
        ensures
            r@ == spec_standard_entries(),
    {
        let mut r = CommandRegistry::new();
        r.add_entry("help", CommandKind::Help);
        r.add_entry("h", CommandKind::Help);
        r.add_entry("?", CommandKind::Help);
        r.add_entry("password", CommandKind::Password);
        r.add_entry("pass", CommandKind::Password);
        r.add_entry("p", CommandKind::Password);
        r.add_entry("login", CommandKind::Password);
        r.add_entry("system", CommandKind::System);
        r.add_entry("sys", CommandKind::System);
        r.add_entry("info", CommandKind::System);
        r.add_entry("status", CommandKind::System);
        r.add_entry("echo", CommandKind::Echo);
        r.add_entry("e", CommandKind::Echo);
        r.add_entry("print", CommandKind::Echo);
        r.add_entry("token", CommandKind::Token);
        r.add_entry("tokens", CommandKind::Token);
        r.add_entry("t", CommandKind::Token);
        r.add_entry("tokenlist", CommandKind::Token);
        r.add_entry("enter", CommandKind::Enter);
        r.add_entry("goto", CommandKind::Enter);
        r.add_entry("open", CommandKind::Enter);
        r.add_entry("home", CommandKind::Enter);
        r.add_entry("git", CommandKind::Enter);
        r.add_entry("tv", CommandKind::Enter);
        r.add_entry("admin", CommandKind::Enter);
        proof {
            assert(r@ =~= spec_standard_entries());
        }
        r
    }

    /// The registered command kinds, deduplicated, in order of first
    /// registration: one entry per distinct command whatever the number
    /// of aliases it is registered under.
    pub fn list_unique(&self) -> (r: Vec<CommandKind>)
        ensures
            r@ == spec_unique_kinds(self@),
    {
        let n = self.entries.len();
        let mut out: Vec<CommandKind> = Vec::new();
        let mut i: usize = 0;
        proof {
            assert(out@ =~= spec_unique_kinds(self@.take(0)));
        }
        while i < n
            invariant
                i <= n,
                n == self.entries@.len(),
                self@.len() == n,
                out@ == spec_unique_kinds(self@.take(i as int)),
            decreases n - i,
        {
            let k = self.entries[i].1;
            proof {
                assert(self@[i as int].1 == k);
                assert(self@.take(i + 1).drop_last() =~= self@.take(i as int));
                assert(self@.take(i + 1).last() == self@[i as int]);
            }
            let mut seen = false;
            let m = out.len();
            let mut j: usize = 0;
            while j < m
                invariant
                    j <= m,
                    m == out@.len(),
                    seen == exists|q: int| 0 <= q < j && out@[q] == k,
                decreases m - j,
            {
                if out[j] == k {
                    seen = true;
                }
                j += 1;
            }
            if !seen {
                out.push(k);
            }
            proof {
                assert(out@ =~= spec_unique_kinds(self@.take(i + 1)));
            }
            i += 1;
        }
        proof {
            assert(self@.take(n as int) =~= self@);
        }
        out
    }
}

/// The distinct kinds among the entries, in order of first appearance.
pub open spec fn spec_unique_kinds(entries: Seq<(Seq<char>, CommandKind)>) -> Seq<CommandKind>
    decreases entries.len(),
{
    if entries.len() == 0 {
        Seq::empty()
    } else {
        let pre = spec_unique_kinds(entries.drop_last());
        if pre.contains(entries.last().1) {
            pre
        } else {
            pre.push(entries.last().1)
        }
    }
}

/// Law: command resolution is alias-transparent. In the standard registry
/// the canonical name `password` and each of its aliases resolve to the
/// same descriptor.
pub proof fn lemma_alias_transparent()
    ensures
        spec_resolve_in(spec_standard_entries(), "password"@) == Option::Some(
            CommandKind::Password,
        ),
        spec_resolve_in(spec_standard_entries(), "pass"@) == Option::Some(CommandKind::Password),
        spec_resolve_in(spec_standard_entries(), "p"@) == Option::Some(CommandKind::Password),
        spec_resolve_in(spec_standard_entries(), "login"@) == Option::Some(CommandKind::Password),
{
    reveal_strlit("help");
    reveal_strlit("h");
    reveal_strlit("?");
    reveal_strlit("password");
    reveal_strlit("pass");
    reveal_strlit("p");
    reveal_strlit("login");
    let e = spec_standard_entries();
    assert("help"@.len() == 4 && "h"@.len() == 1 && "?"@.len() == 1);
    assert("password"@.len() == 8 && "pass"@.len() == 4 && "p"@.len() == 1);
    assert("login"@.len() == 5);
    assert("help"@[0] == 'h' && "pass"@[0] == 'p' && "h"@[0] == 'h' && "p"@[0] == 'p');
    assert("?"@[0] == '?');
    assert(e[0].0 == "help"@ && e[1].0 == "h"@ && e[2].0 == "?"@);
    assert(e[3] == ("password"@, CommandKind::Password));
    assert(e[4] == ("pass"@, CommandKind::Password));
    assert(e[5] == ("p"@, CommandKind::Password));
    assert(e[6] == ("login"@, CommandKind::Password));
    lemma_resolve_skip(e, "password"@, 3);
    assert(e.skip(3)[0] == e[3]);
    lemma_resolve_skip(e, "pass"@, 4);
    assert(e.skip(4)[0] == e[4]);
    lemma_resolve_skip(e, "p"@, 5);
    assert(e.skip(5)[0] == e[5]);
    lemma_resolve_skip(e, "login"@, 6);
    assert(e.skip(6)[0] == e[6]);
}

/// Law: the deduplicated command listing is independent of the alias
/// count. It holds no kind twice, and it holds exactly the kinds that some
/// entry is registered under.
pub proof fn lemma_unique_kinds_exact(entries: Seq<(Seq<char>, CommandKind)>)
    ensures
        spec_unique_kinds(entries).no_duplicates(),
        forall|k: CommandKind|
            #[trigger] spec_unique_kinds(entries).contains(k) == (exists|i: int|
                0 <= i < entries.len() && (#[trigger] entries[i]).1 == k),
    decreases entries.len(),
{
    if entries.len() > 0 {
        let pre = entries.drop_last();
        let last = entries.last();
        lemma_unique_kinds_exact(pre);
        let u = spec_unique_kinds(pre);
        let out = spec_unique_kinds(entries);
        if u.contains(last.1) {
            assert forall|k: CommandKind| #[trigger] out.contains(k) == (exists|i: int|
                0 <= i < entries.len() && (#[trigger] entries[i]).1 == k) by {
                if out.contains(k) {
                    let i = choose|i: int| 0 <= i < pre.len() && pre[i].1 == k;
                    assert(entries[i].1 == k);
                }
                if exists|i: int| 0 <= i < entries.len() && (#[trigger] entries[i]).1 == k {
                    let i = choose|i: int| 0 <= i < entries.len() && entries[i].1 == k;
                    if i < entries.len() - 1 {
                        assert(pre[i].1 == k);
                    } else {
                        assert(k == last.1);
                    }
                }
            }
        } else {
            assert(out == u.push(last.1));
            assert(out.no_duplicates()) by {
                assert forall|a: int, b: int| 0 <= a < b < out.len() implies out[a]
                    != out[b] by {
                    if b == u.len() {
                        assert(out[a] == u[a]);
                        assert(u.contains(u[a]));
                    } else {
                        assert(out[a] == u[a] && out[b] == u[b]);
                    }
                }
            }
            assert forall|k: CommandKind| #[trigger] out.contains(k) == (exists|i: int|
                0 <= i < entries.len() && (#[trigger] entries[i]).1 == k) by {
                if out.contains(k) {
                    let q = choose|q: int| 0 <= q < out.len() && out[q] == k;
                    if q < u.len() {
                        assert(u.contains(k));
                        let i = choose|i: int| 0 <= i < pre.len() && pre[i].1 == k;
                        assert(entries[i].1 == k);
                    } else {
                        assert(entries[entries.len() - 1].1 == k);
                    }
                }
                if exists|i: int| 0 <= i < entries.len() && (#[trigger] entries[i]).1 == k {
                    let i = choose|i: int| 0 <= i < entries.len() && entries[i].1 == k;
                    if i < entries.len() - 1 {
                        assert(pre[i].1 == k);
                        assert(u.contains(k));
                        let q = choose|q: int| 0 <= q < u.len() && u[q] == k;
                        assert(out[q] == k);
                    } else {
                        assert(out[out.len() - 1] == k);
                    }
                }
            }
        }
    }
}

/// Law: the standard registry, with its twenty-five name entries, lists
/// exactly the six built-in commands, in registration order.
#[verifier::rlimit(100)]
pub proof fn lemma_standard_unique_count()
    ensures
        spec_unique_kinds(spec_standard_entries()) == crate::commands::spec_all_kinds(),
{
    let e = spec_standard_entries();
    assert(e.take(0) =~= Seq::<(Seq<char>, CommandKind)>::empty());
    assert(spec_unique_kinds(e.take(0)) =~= Seq::<CommandKind>::empty());
    assert(e.take(1).drop_last() =~= e.take(0));
    assert(e.take(1).last() == e[0]);
    assert(spec_unique_kinds(e.take(1)) =~= seq![CommandKind::Help]);
    assert(e.take(2).drop_last() =~= e.take(1));
    assert(e.take(2).last() == e[1]);
    assert(spec_unique_kinds(e.take(1)).contains(CommandKind::Help)) by {
        assert(spec_unique_kinds(e.take(1))[0] == CommandKind::Help);
    }
    assert(spec_unique_kinds(e.take(2)) =~= seq![CommandKind::Help]);
    assert(e.take(3).drop_last() =~= e.take(2));
    assert(e.take(3).last() == e[2]);
    assert(spec_unique_kinds(e.take(2)).contains(CommandKind::Help)) by {
        assert(spec_unique_kinds(e.take(2))[0] == CommandKind::Help);
    }
    assert(spec_unique_kinds(e.take(3)) =~= seq![CommandKind::Help]);
    assert(e.take(4).drop_last() =~= e.take(3));
    assert(e.take(4).last() == e[3]);
    assert(spec_unique_kinds(e.take(4)) =~= seq![CommandKind::Help, CommandKind::Password]);
    assert(e.take(5).drop_last() =~= e.take(4));
    assert(e.take(5).last() == e[4]);
    assert(spec_unique_kinds(e.take(4)).contains(CommandKind::Password)) by {
        assert(spec_unique_kinds(e.take(4))[1] == CommandKind::Password);
    }
    assert(spec_unique_kinds(e.take(5)) =~= seq![CommandKind::Help, CommandKind::Password]);
    assert(e.take(6).drop_last() =~= e.take(5));
    assert(e.take(6).last() == e[5]);
    assert(spec_unique_kinds(e.take(5)).contains(CommandKind::Password)) by {
        assert(spec_unique_kinds(e.take(5))[1] == CommandKind::Password);
    }
    assert(spec_unique_kinds(e.take(6)) =~= seq![CommandKind::Help, CommandKind::Password]);
    assert(e.take(7).drop_last() =~= e.take(6));
    assert(e.take(7).last() == e[6]);
    assert(spec_unique_kinds(e.take(6)).contains(CommandKind::Password)) by {
        assert(spec_unique_kinds(e.take(6))[1] == CommandKind::Password);
    }
    assert(spec_unique_kinds(e.take(7)) =~= seq![CommandKind::Help, CommandKind::Password]);
    assert(e.take(8).drop_last() =~= e.take(7));
    assert(e.take(8).last() == e[7]);
    assert(spec_unique_kinds(e.take(8)) =~= seq![CommandKind::Help, CommandKind::Password, CommandKind::System]);
    assert(e.take(9).drop_last() =~= e.take(8));
    assert(e.take(9).last() == e[8]);
    assert(spec_unique_kinds(e.take(8)).contains(CommandKind::System)) by {
        assert(spec_unique_kinds(e.take(8))[2] == CommandKind::System);
    }
    assert(spec_unique_kinds(e.take(9)) =~= seq![CommandKind::Help, CommandKind::Password, CommandKind::System]);
    assert(e.take(10).drop_last() =~= e.take(9));
    assert(e.take(10).last() == e[9]);
    assert(spec_unique_kinds(e.take(9)).contains(CommandKind::System)) by {
        assert(spec_unique_kinds(e.take(9))[2] == CommandKind::System);
    }
    assert(spec_unique_kinds(e.take(10)) =~= seq![CommandKind::Help, CommandKind::Password, CommandKind::System]);
    assert(e.take(11).drop_last() =~= e.take(10));
    assert(e.take(11).last() == e[10]);
    assert(spec_unique_kinds(e.take(10)).contains(CommandKind::System)) by {
        assert(spec_unique_kinds(e.take(10))[2] == CommandKind::System);
    }
    assert(spec_unique_kinds(e.take(11)) =~= seq![CommandKind::Help, CommandKind::Password, CommandKind::System]);
    assert(e.take(12).drop_last() =~= e.take(11));
    assert(e.take(12).last() == e[11]);
    assert(spec_unique_kinds(e.take(12)) =~= seq![CommandKind::Help, CommandKind::Password, CommandKind::System, CommandKind::Echo]);
    assert(e.take(13).drop_last() =~= e.take(12));
    assert(e.take(13).last() == e[12]);
    assert(spec_unique_kinds(e.take(12)).contains(CommandKind::Echo)) by {
        assert(spec_unique_kinds(e.take(12))[3] == CommandKind::Echo);
    }
    assert(spec_unique_kinds(e.take(13)) =~= seq![CommandKind::Help, CommandKind::Password, CommandKind::System, CommandKind::Echo]);
    assert(e.take(14).drop_last() =~= e.take(13));
    assert(e.take(14).last() == e[13]);
    assert(spec_unique_kinds(e.take(13)).contains(CommandKind::Echo)) by {
        assert(spec_unique_kinds(e.take(13))[3] == CommandKind::Echo);
    }
    assert(spec_unique_kinds(e.take(14)) =~= seq![CommandKind::Help, CommandKind::Password, CommandKind::System, CommandKind::Echo]);
    assert(e.take(15).drop_last() =~= e.take(14));
    assert(e.take(15).last() == e[14]);
    assert(spec_unique_kinds(e.take(15)) =~= seq![CommandKind::Help, CommandKind::Password, CommandKind::System, CommandKind::Echo, CommandKind::Token]);
    assert(e.take(16).drop_last() =~= e.take(15));
    assert(e.take(16).last() == e[15]);
    assert(spec_unique_kinds(e.take(15)).contains(CommandKind::Token)) by {
        assert(spec_unique_kinds(e.take(15))[4] == CommandKind::Token);
    }
    assert(spec_unique_kinds(e.take(16)) =~= seq![CommandKind::Help, CommandKind::Password, CommandKind::System, CommandKind::Echo, CommandKind::Token]);
    assert(e.take(17).drop_last() =~= e.take(16));
    assert(e.take(17).last() == e[16]);
    assert(spec_unique_kinds(e.take(16)).contains(CommandKind::Token)) by {
        assert(spec_unique_kinds(e.take(16))[4] == CommandKind::Token);
    }
    assert(spec_unique_kinds(e.take(17)) =~= seq![CommandKind::Help, CommandKind::Password, CommandKind::System, CommandKind::Echo, CommandKind::Token]);
    assert(e.take(18).drop_last() =~= e.take(17));
    assert(e.take(18).last() == e[17]);
    assert(spec_unique_kinds(e.take(17)).contains(CommandKind::Token)) by {
        assert(spec_unique_kinds(e.take(17))[4] == CommandKind::Token);
    }
    assert(spec_unique_kinds(e.take(18)) =~= seq![CommandKind::Help, CommandKind::Password, CommandKind::System, CommandKind::Echo, CommandKind::Token]);
    assert(e.take(19).drop_last() =~= e.take(18));
    assert(e.take(19).last() == e[18]);
    assert(spec_unique_kinds(e.take(19)) =~= seq![CommandKind::Help, CommandKind::Password, CommandKind::System, CommandKind::Echo, CommandKind::Token, CommandKind::Enter]);
    assert(e.take(20).drop_last() =~= e.take(19));
    assert(e.take(20).last() == e[19]);
    assert(spec_unique_kinds(e.take(19)).contains(CommandKind::Enter)) by {
        assert(spec_unique_kinds(e.take(19))[5] == CommandKind::Enter);
    }
    assert(spec_unique_kinds(e.take(20)) =~= seq![CommandKind::Help, CommandKind::Password, CommandKind::System, CommandKind::Echo, CommandKind::Token, CommandKind::Enter]);
    assert(e.take(21).drop_last() =~= e.take(20));
    assert(e.take(21).last() == e[20]);
    assert(spec_unique_kinds(e.take(20)).contains(CommandKind::Enter)) by {
        assert(spec_unique_kinds(e.take(20))[5] == CommandKind::Enter);
    }
    assert(spec_unique_kinds(e.take(21)) =~= seq![CommandKind::Help, CommandKind::Password, CommandKind::System, CommandKind::Echo, CommandKind::Token, CommandKind::Enter]);
    assert(e.take(22).drop_last() =~= e.take(21));
    assert(e.take(22).last() == e[21]);
    assert(spec_unique_kinds(e.take(21)).contains(CommandKind::Enter)) by {
        assert(spec_unique_kinds(e.take(21))[5] == CommandKind::Enter);
    }
    assert(spec_unique_kinds(e.take(22)) =~= seq![CommandKind::Help, CommandKind::Password, CommandKind::System, CommandKind::Echo, CommandKind::Token, CommandKind::Enter]);
    assert(e.take(23).drop_last() =~= e.take(22));
    assert(e.take(23).last() == e[22]);
    assert(spec_unique_kinds(e.take(22)).contains(CommandKind::Enter)) by {
        assert(spec_unique_kinds(e.take(22))[5] == CommandKind::Enter);
    }
    assert(spec_unique_kinds(e.take(23)) =~= seq![CommandKind::Help, CommandKind::Password, CommandKind::System, CommandKind::Echo, CommandKind::Token, CommandKind::Enter]);
    assert(e.take(24).drop_last() =~= e.take(23));
    assert(e.take(24).last() == e[23]);
    assert(spec_unique_kinds(e.take(23)).contains(CommandKind::Enter)) by {
        assert(spec_unique_kinds(e.take(23))[5] == CommandKind::Enter);
    }
    assert(spec_unique_kinds(e.take(24)) =~= seq![CommandKind::Help, CommandKind::Password, CommandKind::System, CommandKind::Echo, CommandKind::Token, CommandKind::Enter]);
    assert(e.take(25).drop_last() =~= e.take(24));
    assert(e.take(25).last() == e[24]);
    assert(spec_unique_kinds(e.take(24)).contains(CommandKind::Enter)) by {
        assert(spec_unique_kinds(e.take(24))[5] == CommandKind::Enter);
    }
    assert(spec_unique_kinds(e.take(25)) =~= seq![CommandKind::Help, CommandKind::Password, CommandKind::System, CommandKind::Echo, CommandKind::Token, CommandKind::Enter]);
    assert(e.take(25) =~= e);
    assert(spec_unique_kinds(e) =~= crate::commands::spec_all_kinds());
}

/// Registers a command kind under its canonical name and all its aliases.
/// Registration fails loudly on any collision: if one of the names is
/// already taken, nothing is added and `false` comes back.
pub fn register_command(registry: &mut CommandRegistry, kind: CommandKind) -> (ok: bool)
    ensures
        ok == (forall|j: int|
            0 <= j < spec_kind_names(kind).len() ==> !spec_contains_name(
                old(registry)@,
                #[trigger] spec_kind_names(kind)[j],
            )),
        ok ==> final(registry)@ == old(registry)@ + spec_entries_of(kind),
        !ok ==> final(registry)@ == old(registry)@,
{
    let mut names: Vec<&'static str> = Vec::new();
    names.push(kind.name());
    let aliases = kind.aliases();
    let mut i: usize = 0;
    let n = aliases.len();
    proof {
        assert(spec_kind_names(kind).len() == 1 + spec_kind_aliases(kind).len());
        assert(names.deep_view() =~= spec_kind_names(kind).take(1));
    }
    while i < n
        invariant
            i <= n,
            n == aliases@.len(),
            aliases.deep_view() == spec_kind_aliases(kind),
            spec_kind_names(kind).len() == 1 + n,
            names.deep_view() == spec_kind_names(kind).take(i + 1),
        decreases n - i,
    {
        let ghost pre = names.deep_view();
        names.push(aliases[i]);
        proof {
            assert(names.deep_view() =~= pre.push(aliases@[i as int]@));
            assert(aliases.deep_view()[i as int] == aliases@[i as int]@);
            assert(spec_kind_names(kind)[i + 1] == spec_kind_aliases(kind)[i as int]);
            assert(spec_kind_names(kind).take(i + 2) =~= spec_kind_names(kind).take(i + 1).push(
                spec_kind_names(kind)[i + 1],
            ));
        }
        i += 1;
    }
    proof {
        assert(spec_kind_names(kind).take(spec_kind_names(kind).len() as int) =~= spec_kind_names(
            kind,
        ));
    }
    // first pass: refuse on any collision
    let count = names.len();
    let mut j: usize = 0;
    while j < count
        invariant
            j <= count,
            count == names@.len(),
            names.deep_view() == spec_kind_names(kind),
            forall|k: int|
                0 <= k < j ==> !spec_contains_name(registry@, #[trigger] names.deep_view()[k]),
        decreases count - j,
    {
        if registry.contains_name(names[j]) {
            proof {
                assert(spec_contains_name(registry@, spec_kind_names(kind)[j as int]));
            }
            return false;
        }
        j += 1;
    }
    // second pass: add every name
    let ghost base = registry@;
    let mut j2: usize = 0;
    while j2 < count
        invariant
            j2 <= count,
            count == names@.len(),
            names.deep_view() == spec_kind_names(kind),
            registry@ == base + spec_entries_of(kind).take(j2 as int),
        decreases count - j2,
    {
        registry.add_entry(names[j2], kind);
        proof {
            assert(spec_entries_of(kind).take(j2 + 1) =~= spec_entries_of(kind).take(
                j2 as int,
            ).push((spec_kind_names(kind)[j2 as int], kind)));
            assert(registry@ =~= base + spec_entries_of(kind).take(j2 + 1));
        }
        j2 += 1;
    }
    proof {
        assert(spec_entries_of(kind).take(count as int) =~= spec_entries_of(kind));
        assert(registry@ =~= base + spec_entries_of(kind));
    }
    true
}

} // verus!
