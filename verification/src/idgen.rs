//! Identifier generation from word lists.
//!
//! Candidates have the shape `prefix-adjective-noun-verb`, with the three
//! words drawn at random from three word lists loaded once at startup.
//! Uniqueness is not guaranteed here: only the registry can check a
//! candidate against the set of live identifiers, under the same critical
//! section that inserts it.

use vstd::prelude::*;

use vstd::string::StringExecFns;

verus! {

/// Relies on `rand::random_range`, which returns a value in the given
/// range and panics only when the range is empty.
#[verifier::external_body]
fn random_below(n: usize) -> (r: usize)
    requires
        n > 0,
    ensures
        r < n,
{
    rand::random_range(0..n)
}

#[derive(Debug, PartialEq, Eq, Structural)]
/// Error raised at startup when the static word-list data cannot seed the
/// generator. This is fatal: the generator cannot run without words.
pub enum ConfigError {
    /// One of the word lists holds no words.
    EmptyWordList,
}

/// Produces human-readable candidate identifiers from three word lists and
/// a fixed prefix.
pub struct IdGenerator {
    /// The identifier prefix, set once from configuration.
    pub prefix: String,
    /// Adjectives, the first drawn word.
    pub adjectives: Vec<String>,
    /// Nouns, the second drawn word.
    pub nouns: Vec<String>,
    /// Verbs, the third drawn word.
    pub verbs: Vec<String>,
}

impl IdGenerator {
    /// Each word list holds at least one word: the startup invariant that
    /// construction enforces.
    pub open spec fn wf(self) -> bool {
        self.adjectives@.len() > 0 && self.nouns@.len() > 0 && self.verbs@.len() > 0
    }

    /// `id` is one of the strings this generator can produce: the prefix
    /// and one word of each list, joined by dashes.
    pub open spec fn is_candidate(self, id: Seq<char>) -> bool {
        exists|i: int, j: int, k: int|
            {
                &&& 0 <= i < self.adjectives@.len()
                &&& 0 <= j < self.nouns@.len()
                &&& 0 <= k < self.verbs@.len()
                &&& id == self.prefix@ + "-"@ + #[trigger] self.adjectives@[i]@ + "-"@
                    + #[trigger] self.nouns@[j]@ + "-"@ + #[trigger] self.verbs@[k]@
            }
    }

    /// Make a generator from the prefix and the three word lists; an empty
    /// list is a fatal configuration error.
    pub fn new(prefix: String, adjectives: Vec<String>, nouns: Vec<String>, verbs: Vec<String>) -> (r:
        Result<IdGenerator, ConfigError>)
        ensures
            r is Ok <==> (adjectives@.len() > 0 && nouns@.len() > 0 && verbs@.len() > 0),
            match r {
                Ok(g) => g == (IdGenerator { prefix, adjectives, nouns, verbs }) && g.wf(),
                Err(e) => e == ConfigError::EmptyWordList,
            },
    {
        if adjectives.len() == 0 || nouns.len() == 0 || verbs.len() == 0 {
            Err(ConfigError::EmptyWordList)
        } else {
            Ok(IdGenerator { prefix, adjectives, nouns, verbs })
        }
    }

    /// Build one candidate identifier from freshly drawn words.
    pub fn generate(&self) -> (r: String)
        requires
            self.wf(),
        ensures
            self.is_candidate(r@),
    {
        let i = random_below(self.adjectives.len());
        let j = random_below(self.nouns.len());
        let k = random_below(self.verbs.len());

        let mut r = self.prefix.clone();
        r.append("-");
        r.append(self.adjectives[i].as_str());
        r.append("-");
        r.append(self.nouns[j].as_str());
        r.append("-");
        r.append(self.verbs[k].as_str());

        proof {
            assert(r@ == self.prefix@ + "-"@ + self.adjectives@[i as int]@ + "-"@
                + self.nouns@[j as int]@ + "-"@ + self.verbs@[k as int]@);
            assert(self.is_candidate(r@));
        }
        r
    }
}

} // verus!
