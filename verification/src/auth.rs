//! The principal returned by token verification, and the check the
//! orchestrator makes on it before any work: the token's `me` identity must
//! be the configured site identity.

use vstd::prelude::*;

use crate::text::{char_white, push_char, str_eq, white};

verus! {

broadcast use vstd::seq::group_seq_axioms;

/// What the token endpoint answers for a bearer token.
#[derive(Clone, Debug, PartialEq)]
pub struct TokenValidateResponse {
    pub me: String,
    pub client_id: String,
    pub issued_at: i64,
    pub scope: String,
    pub nonce: i64,
}

/// The scope splitter's state: the finished scopes, and the word being read.
pub struct ScopeAccV {
    pub done: Seq<Seq<char>>,
    pub cur: Seq<char>,
}

/// One character fed to the scope splitter: whitespace closes the open word,
/// anything else extends it.
pub open spec fn scope_step(acc: ScopeAccV, c: char) -> ScopeAccV {
    if white(c) {
        if acc.cur.len() > 0 {
            ScopeAccV { done: acc.done.push(acc.cur), cur: Seq::empty() }
        } else {
            acc
        }
    } else {
        ScopeAccV { done: acc.done, cur: acc.cur.push(c) }
    }
}

/// The splitter run over a whole string.
pub open spec fn scope_fold(s: Seq<char>) -> ScopeAccV
    decreases s.len(),
{
    if s.len() == 0 {
        ScopeAccV { done: Seq::empty(), cur: Seq::empty() }
    } else {
        scope_step(scope_fold(s.drop_last()), s.last())
    }
}

/// The scope string split on whitespace: the maximal whitespace-free words,
/// in order; an empty string has no scopes at all.
pub open spec fn spec_scopes(s: Seq<char>) -> Seq<Seq<char>> {
    let acc = scope_fold(s);
    if acc.cur.len() > 0 {
        acc.done.push(acc.cur)
    } else {
        acc.done
    }
}

impl TokenValidateResponse {
    /// The scopes granted: the scope string split on whitespace.
    pub fn scopes(&self) -> (r: Vec<String>)
        ensures
            crate::entry::catseq(r@) == spec_scopes(self.scope@),
    {
        let s = self.scope.as_str();
        let len = s.unicode_len();
        let ghost sv = s@;
        let mut done: Vec<String> = Vec::new();
        let mut cur = String::new();
        proof {
            assert(crate::entry::catseq(done@) =~= Seq::<Seq<char>>::empty());
            assert(sv.take(0) =~= Seq::<char>::empty());
        }
        let mut i: usize = 0;
        while i < len
            invariant
                i <= len,
                len == sv.len(),
                sv == self.scope@,
                s@ == sv,
                scope_fold(sv.take(i as int)) == (ScopeAccV {
                    done: crate::entry::catseq(done@),
                    cur: cur@,
                }),
            decreases len - i,
        {
            let ghost acc = scope_fold(sv.take(i as int));
            let c = s.get_char(i);
            proof {
                assert(sv.take(i + 1).drop_last() =~= sv.take(i as int));
                assert(sv.take(i + 1).last() == sv[i as int]);
            }
            if char_white(c) {
                if !cur.as_str().is_empty() {
                    let ghost prev = done@;
                    done.push(cur);
                    cur = String::new();
                    proof {
                        assert(crate::entry::catseq(done@) =~= crate::entry::catseq(prev).push(
                            acc.cur,
                        ));
                    }
                }
            } else {
                push_char(&mut cur, c);
            }
            i = i + 1;
        }
        proof {
            assert(sv.take(len as int) =~= sv);
        }
        if !cur.as_str().is_empty() {
            let ghost prev = done@;
            done.push(cur);
            proof {
                assert(crate::entry::catseq(done@) =~= crate::entry::catseq(prev).push(
                    scope_fold(sv).cur,
                ));
            }
        }
        done
    }

    /// Whether the validated principal is the configured site identity; a
    /// mismatch aborts the request before any other work.
    pub fn matches_site(&self, host_website: &str) -> (r: bool)
        ensures
            r == (self.me@ == host_website@),
    {
        str_eq(self.me.as_str(), host_website)
    }
}

} // verus!
