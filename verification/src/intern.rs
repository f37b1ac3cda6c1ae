//! Symbols: names interned as dense integer ids.

use vstd::prelude::*;
use crate::text::{decimal, push_decimal, push_text};

verus! {

/// An interned name. Two symbols are the same exactly when their ids are.
#[derive(Debug, Eq, PartialEq, Ord, PartialOrd, Copy, Clone, Hash, Structural)]
pub struct Symbol(pub u32);

impl Symbol {
    /// The id of this symbol.
    pub fn id(&self) -> (r: u32)
        ensures
            r == self.0,
    {
        self.0
    }
}

/// The table of symbols minted so far.
///
/// Its model is the sequence of the names given to the symbols `0, 1, 2, ..`
/// in the order in which they were minted; a symbol made by
/// [`SymbolIntern::gen_sym`] has no name.
#[derive(Debug)]
pub struct SymbolIntern {
    names: Vec<Option<String>>,
}

/// The names of a table, each as a sequence of characters.
pub open spec fn names_of(names: Seq<Option<String>>) -> Seq<Option<Seq<char>>> {
    names.map_values(
        |n: Option<String>|
            match n {
                Some(s) => Some(s@),
                None => None,
            },
    )
}

/// The oldest symbol among the first `upto` that carries `name`, if any.
pub open spec fn oldest_named(names: Seq<Option<Seq<char>>>, name: Seq<char>, upto: int) -> Option<
    Symbol,
>
    decreases upto,
{
    if upto <= 0 || upto > names.len() {
        None
    } else {
        match oldest_named(names, name, upto - 1) {
            Some(symbol) => Some(symbol),
            None => if names[upto - 1] == Some(name) {
                Some(Symbol((upto - 1) as u32))
            } else {
                None
            },
        }
    }
}

/// The symbol that `name` stands for in a table with the given names: the
/// oldest symbol that carries it. A symbol that is given the same name
/// later, as a generated one may be, does not take the name over.
pub open spec fn symbol_named(names: Seq<Option<Seq<char>>>, name: Seq<char>) -> Option<Symbol> {
    oldest_named(names, name, names.len() as int)
}

/// The name under which a symbol without a name is printed.
pub open spec fn anon_name(id: u32) -> Seq<char> {
    seq!['s'] + decimal(id as nat)
}

/// The name under which a symbol is printed: its own, or else `s` followed
/// by its id.
pub open spec fn name_or_anon(names: Seq<Option<Seq<char>>>, symbol: Symbol) -> Seq<char> {
    if symbol.0 < names.len() && names[symbol.0 as int].is_some() {
        names[symbol.0 as int].unwrap()
    } else {
        anon_name(symbol.0)
    }
}

impl View for SymbolIntern {
    type V = Seq<Option<Seq<char>>>;

    closed spec fn view(&self) -> Seq<Option<Seq<char>>> {
        names_of(self.names@)
    }
}

impl SymbolIntern {
    /// Every symbol of the table has an id: the table holds no more symbols
    /// than there are ids.
    pub open spec fn wf(&self) -> bool {
        self@.len() <= u32::MAX
    }

    /// Whether one more symbol can be minted.
    pub open spec fn has_room(&self) -> bool {
        self@.len() < u32::MAX
    }

    /// The name of `symbol`, if it has one.
    pub open spec fn name_of(&self, symbol: Symbol) -> Option<Seq<char>> {
        if symbol.0 < self@.len() {
            self@[symbol.0 as int]
        } else {
            None
        }
    }

    /// An empty table.
    pub fn new() -> (r: SymbolIntern)
        ensures
            r@ == Seq::<Option<Seq<char>>>::empty(),
            r.wf(),
    {
        let r = SymbolIntern { names: Vec::new() };
        assert(r@ =~= Seq::<Option<Seq<char>>>::empty());
        r
    }

    /// The number of symbols, also where some of them have no id.
    pub fn count(&self) -> (r: usize)
        ensures
            r == self@.len(),
    {
        self.names.len()
    }

    /// The number of symbols minted so far, which is the id of the next one.
    pub fn len(&self) -> (r: u32)
        requires
            self.wf(),
        ensures
            r == self@.len(),
    {
        self.names.len() as u32
    }

    /// Mints a symbol without a name.
    pub fn gen_sym(&mut self) -> (r: Symbol)
        requires
            old(self).has_room(),
        ensures
            r.0 == old(self)@.len(),
            final(self)@ == old(self)@.push(None),
            final(self).wf(),
    {
        let id = self.len();
        self.names.push(None);
        assert(self@ =~= old(self)@.push(None));
        Symbol(id)
    }

    fn mint_named(&mut self, name: String) -> (r: Symbol)
        requires
            old(self).has_room(),
        ensures
            r.0 == old(self)@.len(),
            final(self)@ == old(self)@.push(Some(name@)),
            final(self).wf(),
    {
        let id = self.len();
        self.names.push(Some(name));
        assert(self@ =~= old(self)@.push(Some(name@)));
        Symbol(id)
    }

    /// The symbol that `symbol_str` stands for, if the name is known.
    pub fn symbol_for_name(&self, symbol_str: &str) -> (r: Option<Symbol>)
        requires
            self.wf(),
        ensures
            r == symbol_named(self@, symbol_str@),
    {
        let wanted: String = symbol_str.to_owned();
        let mut i: usize = 0;
        while i < self.names.len()
            invariant
                i <= self.names.len() == self@.len() <= u32::MAX,
                wanted@ == symbol_str@,
                oldest_named(self@, symbol_str@, i as int).is_none(),
            decreases self.names.len() - i,
        {
            let hit = match &self.names[i] {
                Some(name) => *name == wanted,
                None => false,
            };
            assert(hit == (self@[i as int] == Some(symbol_str@)));
            if hit {
                proof {
                    lemma_oldest_stays(self@, symbol_str@, i + 1, self@.len() as int);
                }
                return Some(Symbol(i as u32));
            }
            i += 1;
        }
        None
    }

    /// Whether `symbol_str` is the name of a symbol.
    pub fn contains(&self, symbol_str: &str) -> (r: bool)
        requires
            self.wf(),
        ensures
            r == symbol_named(self@, symbol_str@).is_some(),
    {
        self.symbol_for_name(symbol_str).is_some()
    }

    /// The symbol for `symbol_str`: the one that already carries the name, or
    /// else a new one, minted with that name.
    pub fn intern(&mut self, symbol_str: &str) -> (r: Symbol)
        requires
            old(self).wf(),
            symbol_named(old(self)@, symbol_str@).is_none() ==> old(self).has_room(),
        ensures
            final(self).wf(),
            symbol_named(old(self)@, symbol_str@) == Some(r) ==> final(self)@ == old(self)@,
            symbol_named(old(self)@, symbol_str@).is_none() ==> r.0 == old(self)@.len()
                && final(self)@ == old(self)@.push(Some(symbol_str@)),
            symbol_named(old(self)@, symbol_str@).is_some() ==> symbol_named(
                old(self)@,
                symbol_str@,
            ) == Some(r),
            symbol_named(final(self)@, symbol_str@) == Some(r),
            final(self).name_of(r) == Some(symbol_str@),
            grown(old(self)@, final(self)@),
            forall|n: Seq<char>|
                symbol_named(old(self)@, n).is_some() ==> #[trigger] symbol_named(final(self)@, n)
                    == symbol_named(old(self)@, n),
    {
        match self.symbol_for_name(symbol_str) {
            Some(symbol) => {
                proof {
                    lemma_named_carries(self@, symbol_str@, self@.len() as int);
                }
                symbol
            },
            None => {
                let r = self.mint_named(symbol_str.to_owned());
                proof {
                    lemma_named_after_push(old(self)@, Some(symbol_str@), symbol_str@);
                    assert forall|n: Seq<char>|
                        symbol_named(old(self)@, n).is_some() implies #[trigger] symbol_named(self@, n)
                        == symbol_named(old(self)@, n) by {
                        lemma_named_after_push(old(self)@, Some(symbol_str@), n);
                    }
                }
                r
            },
        }
    }

    /// Mints a symbol whose name is `prefix` followed by the decimal numeral
    /// of its id. A name that stood for a symbol before still stands for
    /// that symbol, also where it is the name of the new one.
    pub fn gen_sym_prefix(&mut self, prefix: &str) -> (r: Symbol)
        requires
            old(self).has_room(),
        ensures
            r.0 == old(self)@.len(),
            final(self)@ == old(self)@.push(Some(prefix@ + decimal(r.0 as nat))),
            final(self).wf(),
            forall|n: Seq<char>|
                symbol_named(old(self)@, n).is_some() ==> #[trigger] symbol_named(final(self)@, n)
                    == symbol_named(old(self)@, n),
    {
        let id = self.len();
        let mut name = String::new();
        push_text(&mut name, prefix);
        push_decimal(&mut name, id as u64);
        assert(name@ == prefix@ + decimal(id as nat));
        let r = self.mint_named(name);
        proof {
            assert forall|n: Seq<char>|
                symbol_named(old(self)@, n).is_some() implies #[trigger] symbol_named(self@, n)
                == symbol_named(old(self)@, n) by {
                lemma_named_after_push(old(self)@, Some(name@), n);
            }
        }
        r
    }

    /// The name of `symbol`, if it has one.
    pub fn lookup(&self, symbol: Symbol) -> (r: Option<&str>)
        ensures
            match r {
                Some(name) => self.name_of(symbol) == Some(name@),
                None => self.name_of(symbol).is_none(),
            },
    {
        let Symbol(id) = symbol;
        if (id as usize) < self.names.len() {
            match &self.names[id as usize] {
                Some(name) => Some(name.as_str()),
                None => None,
            }
        } else {
            None
        }
    }

    /// The name of `symbol`, or `s` followed by its id where it has none.
    pub fn lookup_or_anon(&self, symbol: Symbol) -> (r: String)
        ensures
            r@ == name_or_anon(self@, symbol),
    {
        let Symbol(id) = symbol;
        match self.lookup(symbol) {
            Some(name) => name.to_owned(),
            None => {
                let mut r = String::new();
                r.push('s');
                push_decimal(&mut r, id as u64);
                r
            },
        }
    }
}

/// Whether the table `after` holds every symbol of `before`, under the same
/// name.
pub open spec fn grown(before: Seq<Option<Seq<char>>>, after: Seq<Option<Seq<char>>>) -> bool {
    before.len() <= after.len() && forall|i: int|
        0 <= i < before.len() ==> #[trigger] after[i] == before[i]
}

/// What has grown twice has grown.
pub proof fn lemma_grown_twice(
    a: Seq<Option<Seq<char>>>,
    b: Seq<Option<Seq<char>>>,
    c: Seq<Option<Seq<char>>>,
)
    requires
        grown(a, b),
        grown(b, c),
    ensures
        grown(a, c),
{
    assert forall|i: int| 0 <= i < a.len() implies #[trigger] c[i] == a[i] by {
        assert(b[i] == a[i]);
    }
}

/// A symbol found by name carries that name, was minted before `upto`, and
/// no older symbol carries the name.
pub proof fn lemma_named_carries(names: Seq<Option<Seq<char>>>, name: Seq<char>, upto: int)
    requires
        upto <= names.len() <= u32::MAX,
    ensures
        match oldest_named(names, name, upto) {
            Some(symbol) => symbol.0 < upto && names[symbol.0 as int] == Some(name) && forall|
                i: int,
            |
                0 <= i < symbol.0 ==> names[i] != Some(name),
            None => forall|i: int| 0 <= i < upto ==> names[i] != Some(name),
        },
    decreases upto,
{
    if upto > 0 {
        lemma_named_carries(names, name, upto - 1);
    }
}

/// The oldest symbol with a name among some symbols is the oldest among
/// more of them.
proof fn lemma_oldest_stays(names: Seq<Option<Seq<char>>>, name: Seq<char>, k: int, upto: int)
    requires
        0 <= k <= upto <= names.len(),
        oldest_named(names, name, k).is_some(),
    ensures
        oldest_named(names, name, upto) == oldest_named(names, name, k),
    decreases upto - k,
{
    if k < upto {
        lemma_oldest_stays(names, name, k, upto - 1);
    }
}

proof fn lemma_oldest_same(
    before: Seq<Option<Seq<char>>>,
    after: Seq<Option<Seq<char>>>,
    name: Seq<char>,
    upto: int,
)
    requires
        0 <= upto <= before.len(),
        grown(before, after),
    ensures
        oldest_named(after, name, upto) == oldest_named(before, name, upto),
    decreases upto,
{
    if upto > 0 {
        lemma_oldest_same(before, after, name, upto - 1);
        assert(after[upto - 1] == before[upto - 1]);
    }
}

/// Interning is idempotent: a name that stands for a symbol stands for the
/// same symbol in every table that has grown from that one, whatever
/// symbols were minted since.
pub proof fn lemma_intern_idempotent(
    before: Seq<Option<Seq<char>>>,
    after: Seq<Option<Seq<char>>>,
    name: Seq<char>,
)
    requires
        grown(before, after),
        symbol_named(before, name).is_some(),
    ensures
        symbol_named(after, name) == symbol_named(before, name),
{
    lemma_oldest_same(before, after, name, before.len() as int);
    lemma_oldest_stays(after, name, before.len() as int, after.len() as int);
}

/// A name that stands for no symbol of a table stands, in a table that has
/// grown from that one, for no symbol of the first.
pub proof fn lemma_new_name_new_symbol(
    before: Seq<Option<Seq<char>>>,
    after: Seq<Option<Seq<char>>>,
    name: Seq<char>,
)
    requires
        grown(before, after),
        after.len() <= u32::MAX,
        symbol_named(before, name).is_none(),
    ensures
        match symbol_named(after, name) {
            Some(symbol) => before.len() <= symbol.0 < after.len(),
            None => true,
        },
{
    lemma_named_carries(before, name, before.len() as int);
    lemma_named_carries(after, name, after.len() as int);
    match symbol_named(after, name) {
        Some(symbol) => {
            if symbol.0 < before.len() {
                assert(after[symbol.0 as int] == before[symbol.0 as int]);
            }
        },
        None => {},
    }
}

/// A name that stands for a symbol stands for one in every table that has
/// grown from that one.
pub proof fn lemma_named_stays_named(
    before: Seq<Option<Seq<char>>>,
    after: Seq<Option<Seq<char>>>,
    name: Seq<char>,
)
    requires
        grown(before, after),
        after.len() <= u32::MAX,
        symbol_named(before, name).is_some(),
    ensures
        symbol_named(after, name).is_some(),
{
    lemma_intern_idempotent(before, after, name);
}

/// What a name stands for once one more symbol is minted: what it stood
/// for, and the new symbol if it stood for none and the new symbol carries
/// it.
pub proof fn lemma_named_after_push(
    names: Seq<Option<Seq<char>>>,
    entry: Option<Seq<char>>,
    name: Seq<char>,
)
    requires
        names.len() < u32::MAX,
    ensures
        symbol_named(names.push(entry), name) == if symbol_named(names, name).is_some() {
            symbol_named(names, name)
        } else if entry == Some(name) {
            Some(Symbol(names.len() as u32))
        } else {
            None
        },
{
    let after = names.push(entry);
    assert(grown(names, after));
    lemma_oldest_same(names, after, name, names.len() as int);
}

/// Two names that stand for the same symbol are the same name.
pub proof fn lemma_one_name_per_symbol(names: Seq<Option<Seq<char>>>, a: Seq<char>, b: Seq<char>)
    requires
        names.len() <= u32::MAX,
        symbol_named(names, a).is_some(),
        symbol_named(names, a) == symbol_named(names, b),
    ensures
        a == b,
{
    lemma_named_carries(names, a, names.len() as int);
    lemma_named_carries(names, b, names.len() as int);
}

} // verus!
