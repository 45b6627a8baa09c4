//! The runtime variable context.
//!
//! A [`Context`] maps variable names to 64-bit integer values. It is the
//! data a `$name` token is resolved against; the evaluator only ever
//! reads from it. Inserting a name again shadows the earlier value.

use vstd::prelude::*;

verus! {

/// The value bound to `name`, the latest insertion winning.
pub open spec fn spec_ctx_lookup(entries: Seq<(Seq<char>, i64)>, name: Seq<char>) -> Option<i64>
    decreases entries.len(),
{
    if entries.len() == 0 {
        None
    } else if entries.last().0 == name {
        Some(entries.last().1)
    } else {
        spec_ctx_lookup(entries.drop_last(), name)
    }
}

/// A mapping from variable names to numeric values.
#[derive(Debug, Clone)]
pub struct Context {
    entries: Vec<(String, i64)>,
}

/// Whether two strings hold the same characters.
pub(crate) fn str_eq(a: &str, b: &str) -> (r: bool)
    ensures
        r == (a@ == b@),
{
    let n = a.unicode_len();
    let m = b.unicode_len();
    if n != m {
        return false;
    }
    let mut i: usize = 0;
    while i < n
        invariant
            i <= n,
            n == a@.len(),
            n == b@.len(),
            forall|k: int| 0 <= k < i ==> a@[k] == b@[k],
        decreases n - i,
    {
        let ca = a.get_char(i);
        let cb = b.get_char(i);
        if ca != cb {
            return false;
        }
        i += 1;
    }
    proof {
        assert(a@ =~= b@);
    }
    true
}

impl View for Context {
    type V = Seq<(Seq<char>, i64)>;

    closed spec fn view(&self) -> Seq<(Seq<char>, i64)> {
        self.entries.deep_view()
    }
}

impl Context {
    /// An empty context.
    pub fn new() -> (ctx: Context)
        ensures
            ctx@ == Seq::<(Seq<char>, i64)>::empty(),
    {
        let ctx = Context { entries: Vec::new() };
        proof {
            assert(ctx@ =~= Seq::<(Seq<char>, i64)>::empty());
        }
        ctx
    }

    /// Binds `name` to `value`, shadowing any earlier binding.
    pub fn insert(&mut self, name: String, value: i64)
        ensures
            final(self)@ == old(self)@.push((name@, value)),
    {
        let ghost old_dv = self@;
        let ghost namev = name@;
        self.entries.push((name, value));
        proof {
            assert(self@ =~= old_dv.push((namev, value)));
        }
    }

    /// Resolves `name`, the latest insertion winning.
    pub fn get(&self, name: &str) -> (r: Option<i64>)
        ensures
            r == spec_ctx_lookup(self@, name@),
    {
        let n = self.entries.len();
        let mut i: usize = n;
        proof {
            assert(self@.take(n as int) =~= self@);
        }
        while i > 0
            invariant
                i <= n,
                n == self.entries@.len(),
                n == self@.len(),
                spec_ctx_lookup(self@, name@) == spec_ctx_lookup(self@.take(i as int), name@),
            decreases i,
        {
            i -= 1;
            let entry = &self.entries[i];
            proof {
                assert(self@[i as int] == (self.entries@[i as int].0@, self.entries@[i as int].1));
                assert(self@.take(i + 1).last() == self@[i as int]);
                assert(self@.take(i + 1).drop_last() =~= self@.take(i as int));
            }
            if str_eq(entry.0.as_str(), name) {
                return Some(entry.1);
            }
        }
        proof {
            assert(self@.take(0).len() == 0);
        }
        None
    }
}

} // verus!
