//! Compiler constructors selected by name at run time.

use vstd::prelude::*;
use vstd::string::*;
use crate::sql_compiler::same_text;

verus! {

/// Constructors of compilers, each under a distinct name, in order of
/// registration. `F` is the constructor type, e.g. a function returning a
/// boxed compiler.
pub struct CompilerRegistry<F> {
    compilers: Vec<(String, F)>,
}

/// Index of the first entry from `i` on named `name`, or the length.
pub open spec fn index_of(names: Seq<Seq<char>>, name: Seq<char>, i: int) -> int
    decreases names.len() - i,
{
    if i < 0 || i >= names.len() {
        names.len() as int
    } else if names[i] == name {
        i
    } else {
        index_of(names, name, i + 1)
    }
}

proof fn lemma_index_of(names: Seq<Seq<char>>, name: Seq<char>, i: int)
    requires
        0 <= i <= names.len(),
    ensures
        i <= index_of(names, name, i) <= names.len(),
        index_of(names, name, i) < names.len() ==> names[index_of(names, name, i)] == name,
        forall|j: int| i <= j < index_of(names, name, i) ==> names[j] != name,
    decreases names.len() - i,
{
    if i < names.len() && names[i] != name {
        lemma_index_of(names, name, i + 1);
    }
}

impl<F> CompilerRegistry<F> {
    /// The registered names, in order.
    pub closed spec fn names(&self) -> Seq<Seq<char>> {
        self.compilers@.map_values(|e: (String, F)| e.0@)
    }

    /// The registered names are distinct.
    pub closed spec fn wf(&self) -> bool {
        self.names().no_duplicates()
    }

    /// The constructor of the `i`-th entry.
    pub closed spec fn constructor(&self, i: int) -> F {
        self.compilers@[i].1
    }

    /// A registry without entries.
    pub fn empty() -> (r: CompilerRegistry<F>)
        ensures
            r.wf(),
            r.names() == Seq::<Seq<char>>::empty(),
    {
        let r = CompilerRegistry { compilers: Vec::new() };
        assert(r.names() =~= Seq::<Seq<char>>::empty());
        r
    }

    /// A registry with the SQL compiler's constructor under `sql` and `default`.
    pub fn new(sql_compiler: F) -> (r: CompilerRegistry<F>)
        where F: Copy,
        ensures
            r.wf(),
            r.names() == seq!["sql"@, "default"@],
            r.constructor(0) == sql_compiler,
            r.constructor(1) == sql_compiler,
    {
        let mut r = CompilerRegistry::empty();
        r.register("sql", sql_compiler);
        proof {
            reveal_strlit("sql");
            reveal_strlit("default");
            assert(r.names() =~= seq!["sql"@]);
            assert("sql"@.len() != "default"@.len());
            assert(index_of(r.names(), "default"@, 1) == 1);
            assert(index_of(r.names(), "default"@, 0) == 1);
        }
        r.register("default", sql_compiler);
        assert(r.names() =~= seq!["sql"@, "default"@]);
        r
    }

    /// Index of the entry named `name`, or the number of entries.
    fn find(&self, name: &str) -> (r: usize)
        ensures
            r == index_of(self.names(), name@, 0),
    {
        let ghost names = self.names();
        proof {
            lemma_index_of(names, name@, 0);
        }
        let mut i: usize = 0;
        while i < self.compilers.len()
            invariant
                names == self.names(),
                names.len() == self.compilers@.len(),
                i <= names.len(),
                index_of(names, name@, 0) == index_of(names, name@, i as int),
            decreases self.compilers@.len() - i,
        {
            assert(names[i as int] == self.compilers@[i as int].0@);
            if same_text(self.compilers[i].0.as_str(), name) {
                return i;
            }
            i = i + 1;
        }
        i
    }

    /// Registers a constructor under a name, replacing one of that name.
    pub fn register(&mut self, name: &str, factory: F)
        requires
            old(self).wf(),
        ensures
            final(self).wf(),
            ({
                let k = index_of(old(self).names(), name@, 0);
                &&& final(self).names() == (if k < old(self).names().len() {
                    old(self).names()
                } else {
                    old(self).names().push(name@)
                })
                &&& final(self).constructor(k) == factory
                &&& forall|j: int|
                    0 <= j < old(self).names().len() && j != k ==> final(self).constructor(j)
                        == old(self).constructor(j)
            }),
    {
        let k = self.find(name);
        let ghost before = self.compilers@;
        proof {
            lemma_index_of(old(self).names(), name@, 0);
        }
        assert(old(self).names().len() == before.len());
        if k < self.compilers.len() {
            let key = String::from_str(name);
            self.compilers.set(k, (key, factory));
            assert(self.names() =~= old(self).names());
            assert(self.constructor(k as int) == factory);
            assert(forall|j: int| 0 <= j < before.len() && j != k ==> self.compilers@[j] == before[j]);
        } else {
            self.compilers.push((String::from_str(name), factory));
            assert(self.names() =~= old(self).names().push(name@));
            assert(forall|j: int| 0 <= j < old(self).names().len() ==> old(self).names()[j] != name@);
            assert(self.names().no_duplicates()) by {
                let ns = self.names();
                let os = old(self).names();
                assert forall|a: int, b: int| 0 <= a < ns.len() && 0 <= b < ns.len() && a != b implies ns[a]
                    != ns[b] by {
                    if a < os.len() && b < os.len() {
                        assert(ns[a] == os[a] && ns[b] == os[b]);
                    } else if a == os.len() {
                        assert(ns[b] == os[b]);
                    } else {
                        assert(ns[a] == os[a]);
                    }
                }
            }
            assert(self.constructor(k as int) == factory);
            assert(forall|j: int| 0 <= j < before.len() ==> self.compilers@[j] == before[j]);
        }
    }

    /// A new compiler from the constructor registered under `name`.
    pub fn create<C>(&self, name: &str) -> (r: Option<C>)
        where F: Fn() -> C,
        requires
            forall|i: int| 0 <= i < self.names().len() ==> call_requires(#[trigger] self.constructor(i), ()),
        ensures
            ({
                let k = index_of(self.names(), name@, 0);
                if k < self.names().len() {
                    r matches Some(c) && call_ensures(self.constructor(k), (), c)
                } else {
                    r is None
                }
            }),
    {
        let k = self.find(name);
        if k < self.compilers.len() {
            let f = &self.compilers[k].1;
            assert(self.names().len() == self.compilers@.len());
            assert(*f == self.constructor(k as int));
            assert(call_requires(self.constructor(k as int), ()));
            Some(f())
        } else {
            None
        }
    }

    /// The registered names, in order.
    pub fn available_compilers(&self) -> (r: Vec<String>)
        requires
            self.wf(),
        ensures
            r@.map_values(|s: String| s@) == self.names(),
            r@.map_values(|s: String| s@).no_duplicates(),
    {
        let mut out: Vec<String> = Vec::new();
        let mut i: usize = 0;
        while i < self.compilers.len()
            invariant
                i <= self.compilers@.len(),
                out@.map_values(|s: String| s@) == self.names().take(i as int),
            decreases self.compilers@.len() - i,
        {
            let ghost before = out@;
            out.push(self.compilers[i].0.clone());
            proof {
                assert(out@.map_values(|s: String| s@) =~= before.map_values(|s: String| s@).push(
                    self.compilers@[i as int].0@,
                ));
                assert(self.names().take(i + 1) =~= self.names().take(i as int).push(
                    self.compilers@[i as int].0@,
                ));
            }
            i = i + 1;
        }
        assert(self.names().take(i as int) =~= self.names());
        out
    }
}

} // verus!
