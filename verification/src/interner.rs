//! Interned strings: each distinct string is kept once and stands under a
//! small number from then on.

use vstd::prelude::*;
use vstd::string::*;

verus! {

/// The number that an interned string stands under.
#[derive(Clone, Copy, Debug, PartialEq, Eq, Hash, Structural)]
pub struct Symbol(pub usize);

/// The first place below `n` at which `strings` holds `s`, or `n` if there
/// is none.
pub open spec fn first_index_of(strings: Seq<Seq<char>>, s: Seq<char>, n: int) -> int
    decreases n,
{
    if n <= 0 {
        0
    } else {
        let before = first_index_of(strings, s, n - 1);
        if before < n - 1 {
            before
        } else if strings[n - 1] == s {
            n - 1
        } else {
            n
        }
    }
}

/// Whether no string stands at two places of `strings`.
pub open spec fn distinct(strings: Seq<Seq<char>>) -> bool {
    forall|i: int, j: int|
        0 <= i < j < strings.len() ==> #[trigger] strings[i] != #[trigger] strings[j]
}

/// `first_index_of` finds the first place of `s` below `n`: what it returns
/// holds `s`, unless it is `n`, and nothing before it does.
pub proof fn first_index_of_is_first(strings: Seq<Seq<char>>, s: Seq<char>, n: int)
    requires
        0 <= n <= strings.len(),
    ensures
        0 <= first_index_of(strings, s, n) <= n,
        first_index_of(strings, s, n) < n ==> strings[first_index_of(strings, s, n)] == s,
        forall|i: int| 0 <= i < first_index_of(strings, s, n) ==> strings[i] != s,
    decreases n,
{
    if n > 0 {
        first_index_of_is_first(strings, s, n - 1);
    }
}

/// The strings that were interned, in the order of their first arrival.
#[derive(Clone, Debug, PartialEq, Eq)]
pub struct Interner {
    strings: Vec<String>,
}

impl View for Interner {
    type V = Seq<Seq<char>>;

    closed spec fn view(&self) -> Seq<Seq<char>> {
        Seq::new(self.strings@.len(), |i: int| self.strings@[i]@)
    }
}

impl Interner {
    /// Holds of every interner that this module hands out: no string is kept
    /// twice.
    pub open spec fn wf(&self) -> bool {
        distinct(self@)
    }

    /// An interner that holds nothing yet.
    pub fn new() -> (interner: Interner)
        ensures
            interner.wf(),
            interner@ == Seq::<Seq<char>>::empty(),
    {
        let interner = Interner { strings: Vec::new() };
        assert(interner@ =~= Seq::<Seq<char>>::empty());
        interner
    }

    /// The number of distinct strings interned so far.
    pub fn len(&self) -> (n: usize)
        ensures
            n == self@.len(),
    {
        self.strings.len()
    }

    /// The symbol of `s`, if it was interned.
    pub fn find(&self, s: &str) -> (found: Option<Symbol>)
        ensures
            match found {
                Some(symbol) => symbol.0 < self@.len() && symbol.0 == first_index_of(
                    self@,
                    s@,
                    self@.len() as int,
                ),
                None => first_index_of(self@, s@, self@.len() as int) == self@.len(),
            },
    {
        let wanted = String::from_str(s);
        let mut i: usize = 0;
        while i < self.strings.len()
            invariant
                i <= self.strings.len(),
                wanted@ == s@,
                first_index_of(self@, s@, i as int) == i,
            decreases self.strings.len() - i,
        {
            let same = self.strings[i] == wanted;
            assert(self@[i as int] == self.strings@[i as int]@);
            if same {
                proof {
                    first_index_stays(self@, s@, i as int + 1, self@.len() as int);
                }
                return Some(Symbol(i));
            }
            i = i + 1;
        }
        None
    }

    /// The symbol of `s`. A string that was interned before keeps its
    /// symbol, and nothing is added; a new one is added behind the others.
    /// No symbol given out earlier changes its meaning.
    pub fn intern(&mut self, s: &str) -> (symbol: Symbol)
        requires
            old(self).wf(),
        ensures
            final(self).wf(),
            symbol.0 < final(self)@.len(),
            final(self)@[symbol.0 as int] == s@,
            symbol.0 == first_index_of(old(self)@, s@, old(self)@.len() as int),
            symbol.0 < old(self)@.len() ==> final(self)@ == old(self)@,
            symbol.0 == old(self)@.len() ==> final(self)@ == old(self)@.push(s@),
    {
        proof {
            first_index_of_is_first(self@, s@, self@.len() as int);
        }
        match self.find(s) {
            Some(symbol) => symbol,
            None => {
                let n = self.strings.len();
                self.strings.push(String::from_str(s));
                assert(self@ =~= old(self)@.push(s@));
                Symbol(n)
            },
        }
    }

    /// The string that `symbol` stands for, if this interner gave it out.
    pub fn get(&self, symbol: Symbol) -> (s: Option<&str>)
        ensures
            s is Some <==> symbol.0 < self@.len(),
            s is Some ==> s->Some_0@ == self@[symbol.0 as int],
    {
        if symbol.0 < self.strings.len() {
            let s = self.strings[symbol.0].as_str();
            assert(self@[symbol.0 as int] == self.strings@[symbol.0 as int]@);
            Some(s)
        } else {
            None
        }
    }
}

/// Once `s` is found below `n`, looking further changes nothing.
pub proof fn first_index_stays(strings: Seq<Seq<char>>, s: Seq<char>, n: int, m: int)
    requires
        0 <= n <= m,
        first_index_of(strings, s, n) < n,
    ensures
        first_index_of(strings, s, m) == first_index_of(strings, s, n),
    decreases m - n,
{
    if n < m {
        first_index_stays(strings, s, n, m - 1);
    }
}

/// Whether two strings hold the same text.
pub fn str_equal(a: &str, b: &str) -> (same: bool)
    ensures
        same == (a@ == b@),
{
    let left = String::from_str(a);
    let right = String::from_str(b);
    left == right
}

/// A string is found exactly where it is held.
pub proof fn found_iff_held(strings: Seq<Seq<char>>, s: Seq<char>)
    ensures
        first_index_of(strings, s, strings.len() as int) < strings.len() <==> strings.contains(s),
{
    first_index_of_is_first(strings, s, strings.len() as int);
    if strings.contains(s) {
        let i = choose|i: int| 0 <= i < strings.len() && strings[i] == s;
        assert(strings[i] == s);
    }
}

/// Interning goes both ways: the string that a symbol stands for is found
/// under that very symbol, and under no other.
pub proof fn symbol_of_its_string(strings: Seq<Seq<char>>, symbol: int)
    requires
        distinct(strings),
        0 <= symbol < strings.len(),
    ensures
        first_index_of(strings, strings[symbol], strings.len() as int) == symbol,
{
    first_index_of_is_first(strings, strings[symbol], strings.len() as int);
    let found = first_index_of(strings, strings[symbol], strings.len() as int);
    if found > symbol {
        assert(strings[symbol] != strings[symbol]);
    }
    if found < symbol {
        assert(strings[found] != strings[symbol]);
    }
}

} // verus!
