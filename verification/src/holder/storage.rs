//! The holder's credential store: a capability interface over id-keyed
//! credentials, with an in-memory default.

use vstd::prelude::*;
use vstd::pervasive::VecAdditionalExecFns;
use crate::models::credential::{CredentialResponse, CredentialModel};
use crate::strutil::eq_str;

verus! {

/// Replace the entry under `id`, or append a new one.
pub open spec fn spec_store(
    s: Seq<(Seq<char>, CredentialModel)>,
    id: Seq<char>,
    c: CredentialModel,
) -> Seq<(Seq<char>, CredentialModel)>
    decreases s.len(),
{
    if s.len() == 0 {
        seq![(id, c)]
    } else if s[0].0 == id {
        seq![(id, c)] + s.drop_first()
    } else {
        seq![s[0]] + spec_store(s.drop_first(), id, c)
    }
}

/// The credential under `id`, if any: the first match.
pub open spec fn spec_lookup(s: Seq<(Seq<char>, CredentialModel)>, id: Seq<char>) -> Option<
    CredentialModel,
>
    decreases s.len(),
{
    if s.len() == 0 {
        None
    } else if s[0].0 == id {
        Some(s[0].1)
    } else {
        spec_lookup(s.drop_first(), id)
    }
}

/// Under a prefix that holds no match, the first match lies in the rest.
pub proof fn lemma_spec_lookup_skip(s: Seq<(Seq<char>, CredentialModel)>, id: Seq<char>, i: int)
    requires
        0 <= i <= s.len(),
        forall|j: int| 0 <= j < i ==> (#[trigger] s[j]).0 != id,
    ensures
        spec_lookup(s, id) == spec_lookup(s.skip(i), id),
    decreases i,
{
    if i > 0 {
        lemma_spec_lookup_skip(s.drop_first(), id, i - 1);
        assert(s.drop_first().skip(i - 1) =~= s.skip(i));
    } else {
        assert(s.skip(0) =~= s);
    }
}

/// Replacement happens at the first matching index; without a match,
/// the entry lands at the end.
proof fn lemma_spec_store_at(
    s: Seq<(Seq<char>, CredentialModel)>,
    id: Seq<char>,
    c: CredentialModel,
    i: int,
)
    requires
        0 <= i <= s.len(),
        forall|j: int| 0 <= j < i ==> (#[trigger] s[j]).0 != id,
        i < s.len() ==> s[i].0 == id,
    ensures
        i < s.len() ==> spec_store(s, id, c) == s.update(i, (id, c)),
        i == s.len() ==> spec_store(s, id, c) == s.push((id, c)),
    decreases i,
{
    if i == 0 {
        if 0 < s.len() {
            assert(seq![(id, c)] + s.drop_first() =~= s.update(0, (id, c)));
        } else {
            assert(seq![(id, c)] =~= s.push((id, c)));
        }
    } else {
        lemma_spec_store_at(s.drop_first(), id, c, i - 1);
        if i < s.len() {
            assert(seq![s[0]] + s.drop_first().update(i - 1, (id, c)) =~= s.update(i, (id, c)));
        } else {
            assert(seq![s[0]] + s.drop_first().push((id, c)) =~= s.push((id, c)));
        }
    }
}

/// A place to keep credentials by id.
pub trait Storage: Sized {
    /// The stored id/credential pairs, in storage order.
    spec fn contents(&self) -> Seq<(Seq<char>, CredentialModel)>;

    /// Store a credential under `id`, replacing what stood there.
    fn store(&mut self, id: String, credential: CredentialResponse) -> (r: Result<(), String>)
        ensures
            r is Ok ==> final(self).contents() == spec_store(
                old(self).contents(),
                id@,
                credential@,
            ),
            r is Err ==> final(self).contents() == old(self).contents(),
    ;

    /// Everything stored, in storage order.
    fn get_all(&self) -> (r: Result<Vec<CredentialResponse>, String>)
        ensures
            match r {
                Ok(v) => v@.len() == self.contents().len() && (forall|i: int|
                    0 <= i < v@.len() ==> (#[trigger] v@[i])@ == self.contents()[i].1),
                Err(_) => true,
            },
    ;

    /// The credential under `id`, if one is stored.
    fn get(&self, id: &str) -> (r: Result<Option<CredentialResponse>, String>)
        ensures
            match r {
                Ok(o) => match o {
                    Some(c) => spec_lookup(self.contents(), id@) == Some(c@),
                    None => spec_lookup(self.contents(), id@) is None,
                },
                Err(_) => true,
            },
    ;
}

/// The in-memory store: id/credential pairs behind the `Storage`
/// capability set. Callers that share it across workers wrap it in a
/// lock at the transport layer.
pub struct MemoryStorage {
    entries: Vec<(String, CredentialResponse)>,
}

impl MemoryStorage {
    pub fn new() -> (r: Self)
        ensures
            r.contents() == Seq::<(Seq<char>, CredentialModel)>::empty(),
    {
        let r = MemoryStorage { entries: Vec::new() };
        proof {
            assert(r.contents() =~= Seq::<(Seq<char>, CredentialModel)>::empty());
        }
        r
    }
}

impl Storage for MemoryStorage {
    closed spec fn contents(&self) -> Seq<(Seq<char>, CredentialModel)> {
        Seq::new(self.entries@.len(), |i: int| (self.entries@[i].0@, self.entries@[i].1@))
    }

    #[verifier::loop_isolation(false)]
    fn store(&mut self, id: String, credential: CredentialResponse) -> (r: Result<(), String>) {
        let n = self.entries.len();
        let mut i: usize = 0;
        while i < n
            invariant
                i <= n,
                n == self.entries@.len(),
                *self == *old(self),
                forall|j: int| 0 <= j < i ==> (#[trigger] self.entries@[j]).0@ != id@,
            decreases n - i,
        {
            if eq_str(self.entries[i].0.as_str(), id.as_str()) {
                proof {
                    lemma_spec_store_at(old(self).contents(), id@, credential@, i as int);
                }
                self.entries.set(i, (id, credential));
                proof {
                    assert(self.contents() =~= old(self).contents().update(
                        i as int,
                        (id@, credential@),
                    ));
                }
                return Ok(());
            }
            i = i + 1;
        }
        proof {
            lemma_spec_store_at(old(self).contents(), id@, credential@, n as int);
        }
        self.entries.push((id, credential));
        proof {
            assert(self.contents() =~= old(self).contents().push((id@, credential@)));
        }
        Ok(())
    }

    #[verifier::loop_isolation(false)]
    fn get_all(&self) -> (r: Result<Vec<CredentialResponse>, String>) {
        let mut out: Vec<CredentialResponse> = Vec::new();
        let n = self.entries.len();
        let mut i: usize = 0;
        while i < n
            invariant
                i <= n,
                out@.len() == i,
                forall|j: int| 0 <= j < i ==> (#[trigger] out@[j])@ == self.contents()[j].1,
            decreases n - i,
        {
            out.push(self.entries[i].1.clone());
            i = i + 1;
        }
        Ok(out)
    }

    #[verifier::loop_isolation(false)]
    fn get(&self, id: &str) -> (r: Result<Option<CredentialResponse>, String>) {
        let n = self.entries.len();
        let mut i: usize = 0;
        while i < n
            invariant
                i <= n,
                n == self.entries@.len(),
                forall|j: int| 0 <= j < i ==> (#[trigger] self.entries@[j]).0@ != id@,
            decreases n - i,
        {
            if eq_str(self.entries[i].0.as_str(), id) {
                proof {
                    lemma_spec_lookup_skip(self.contents(), id@, i as int);
                    assert(self.contents().skip(i as int)[0] == self.contents()[i as int]);
                }
                return Ok(Some(self.entries[i].1.clone()));
            }
            i = i + 1;
        }
        proof {
            lemma_spec_lookup_skip(self.contents(), id@, n as int);
            assert(self.contents().skip(n as int).len() == 0);
        }
        Ok(None)
    }
}

} // verus!
