//! An explicit environment value: the read interface the evaluator
//! resolves variables against, plus the single write the loader makes
//! when it publishes the project name.

use vstd::prelude::*;

verus! {

/// A named-variable environment. Later bindings shadow earlier ones,
/// so publishing a variable is a plain push.
pub struct Env {
    pub pairs: Vec<(String, String)>,
}

/// The model of an environment: its bindings, as character sequences,
/// oldest first.
pub open spec fn env_model(e: Env) -> Seq<(Seq<char>, Seq<char>)> {
    e.pairs@.map_values(|p: (String, String)| (p.0@, p.1@))
}

/// What a name resolves to: the value of its newest binding.
pub open spec fn env_lookup(m: Seq<(Seq<char>, Seq<char>)>, name: Seq<char>) -> Option<Seq<char>>
    decreases m.len(),
{
    if m.len() == 0 {
        None
    } else if m.last().0 == name {
        Some(m.last().1)
    } else {
        env_lookup(m.drop_last(), name)
    }
}

impl Env {
    pub fn new() -> (r: Env)
        ensures
            env_model(r) == Seq::<(Seq<char>, Seq<char>)>::empty(),
    {
        let r = Env { pairs: Vec::new() };
        proof {
            assert(env_model(r) =~= Seq::<(Seq<char>, Seq<char>)>::empty());
        }
        r
    }

    /// Resolve a name against the newest binding that carries it.
    pub fn lookup(&self, name: &String) -> (r: Option<String>)
        ensures
            match r {
                Some(v) => env_lookup(env_model(*self), name@) == Some(v@),
                None => env_lookup(env_model(*self), name@) is None,
            },
    {
        let mut i: usize = self.pairs.len();
        proof {
            assert(env_model(*self).take(i as int) =~= env_model(*self));
        }
        while i > 0
            invariant
                i <= self.pairs.len(),
                env_lookup(env_model(*self), name@) == env_lookup(
                    env_model(*self).take(i as int),
                    name@,
                ),
            decreases i,
        {
            i = i - 1;
            let pair = &self.pairs[i];
            proof {
                assert(env_model(*self).take(i + 1).last() == (pair.0@, pair.1@));
                assert(env_model(*self).take(i + 1).drop_last() =~= env_model(*self).take(
                    i as int,
                ));
            }
            if pair.0.eq(name) {
                return Some(pair.1.clone());
            }
        }
        proof {
            assert(env_model(*self).take(0) =~= Seq::<(Seq<char>, Seq<char>)>::empty());
        }
        None
    }

    /// Bind a name; the new binding shadows any earlier one.
    pub fn set(&mut self, name: String, value: String)
        ensures
            env_model(*final(self)) == env_model(*old(self)).push((name@, value@)),
            forall|n: Seq<char>|
                #[trigger] env_lookup(env_model(*final(self)), n) == if n == name@ {
                    Some(value@)
                } else {
                    env_lookup(env_model(*old(self)), n)
                },
    {
        let ghost pre = env_model(*old(self));
        self.pairs.push((name, value));
        proof {
            assert(env_model(*self) =~= pre.push((name@, value@)));
            assert(env_model(*self).drop_last() =~= pre);
        }
    }
}

} // verus!
