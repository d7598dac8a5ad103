//! Scopes as sets of space-delimited tokens.
//!
//! A scope string such as `"user:read user"` names a set of privilege
//! tokens.  A request is within a client's granted scope exactly when every
//! requested token is among the granted ones.

use vstd::prelude::*;
use vstd::string::StringSliceAdditionalSpecFns;

verus! {

/// The space byte that separates scope tokens.
pub open spec fn spec_is_sep(b: u8) -> bool {
    b == 32
}

/// Tokenization of `s`, with `cur` the token read so far: the maximal
/// non-space runs of `cur + s`, in order.
pub open spec fn spec_tokens_acc(s: Seq<u8>, cur: Seq<u8>) -> Seq<Seq<u8>>
    decreases s.len(),
{
    if s.len() == 0 {
        if cur.len() == 0 {
            seq![]
        } else {
            seq![cur]
        }
    } else if spec_is_sep(s[0]) {
        if cur.len() == 0 {
            spec_tokens_acc(s.drop_first(), seq![])
        } else {
            seq![cur] + spec_tokens_acc(s.drop_first(), seq![])
        }
    } else {
        spec_tokens_acc(s.drop_first(), cur.push(s[0]))
    }
}

/// The scope tokens of a scope string, as byte sequences: the maximal runs
/// of non-space bytes, in order of appearance.
pub open spec fn spec_scope_tokens(s: Seq<u8>) -> Seq<Seq<u8>> {
    spec_tokens_acc(s, seq![])
}

/// The set of privileges a scope string names.
pub open spec fn spec_scope_set(s: Seq<u8>) -> Set<Seq<u8>> {
    Set::new(|t: Seq<u8>| spec_scope_tokens(s).contains(t))
}

/// `a` names no privilege outside `b`.
pub open spec fn spec_scope_within(a: Seq<u8>, b: Seq<u8>) -> bool {
    spec_scope_set(a).subset_of(spec_scope_set(b))
}

/// `spec_scope_within`, stated over strings as character sequences.
pub open spec fn spec_scope_within_chars(a: Seq<char>, b: Seq<char>) -> bool {
    spec_scope_within(vstd::utf8::encode_utf8(a), vstd::utf8::encode_utf8(b))
}

/// Splits a scope string into its tokens.
pub fn scope_tokens(s: &str) -> (r: Vec<Vec<u8>>)
    ensures
        r.deep_view() == spec_scope_tokens(s.spec_bytes()),
{
    let bytes = s.as_bytes();
    let n = bytes.len();
    let mut out: Vec<Vec<u8>> = Vec::new();
    let mut cur: Vec<u8> = Vec::new();
    let ghost all = s.spec_bytes();
    proof {
        assert(all.skip(0) =~= all);
        assert(out.deep_view() + spec_tokens_acc(all, cur@) =~~= spec_tokens_acc(all, cur@));
    }
    let mut i: usize = 0;
    while i < n
        invariant
            n == all.len(),
            bytes@ == all,
            0 <= i <= n,
            spec_scope_tokens(all) == out.deep_view() + spec_tokens_acc(all.skip(i as int), cur@),
        decreases n - i,
    {
        proof {
            assert(all.skip(i as int).drop_first() =~= all.skip(i + 1));
            assert(all.skip(i as int)[0] == all[i as int]);
        }
        let b = bytes[i];
        if b == 32 {
            if cur.len() > 0 {
                let ghost prev = out.deep_view();
                let ghost curv = cur@;
                proof {
                    assert(spec_tokens_acc(all.skip(i as int), curv) == seq![curv]
                        + spec_tokens_acc(all.skip(i + 1), Seq::<u8>::empty()));
                }
                out.push(cur);
                cur = Vec::new();
                proof {
                    assert(cur@ =~= Seq::<u8>::empty());
                    assert(out.deep_view() =~~= prev + seq![curv]);
                    assert((prev + seq![curv]) + spec_tokens_acc(all.skip(i + 1), cur@)
                        =~~= prev + (seq![curv] + spec_tokens_acc(all.skip(i + 1), cur@)));
                }
            } else {
                proof {
                    assert(cur@ =~= Seq::<u8>::empty());
                }
            }
        } else {
            cur.push(b);
        }
        i = i + 1;
    }
    proof {
        assert(all.skip(n as int) =~= Seq::<u8>::empty());
    }
    if cur.len() > 0 {
        let ghost prev = out.deep_view();
        let ghost curv = cur@;
        out.push(cur);
        proof {
            assert(out.deep_view() =~~= prev + seq![curv]);
            assert(spec_tokens_acc(Seq::<u8>::empty(), curv) == seq![curv]);
            assert(out.deep_view() =~~= spec_scope_tokens(all));
        }
    } else {
        proof {
            assert(spec_tokens_acc(Seq::<u8>::empty(), cur@) == Seq::<Seq<u8>>::empty());
            assert(out.deep_view() =~~= spec_scope_tokens(all));
        }
    }
    out
}

/// Byte-vector equality.
pub fn bytes_eq(a: &Vec<u8>, b: &Vec<u8>) -> (r: bool)
    ensures
        r == (a@ == b@),
{
    if a.len() != b.len() {
        return false;
    }
    let n = a.len();
    let mut i: usize = 0;
    while i < n
        invariant
            n == a@.len() == b@.len(),
            0 <= i <= n,
            forall|j: int| 0 <= j < i ==> a@[j] == b@[j],
        decreases n - i,
    {
        if a[i] != b[i] {
            return false;
        }
        i = i + 1;
    }
    proof {
        assert(a@ =~= b@);
    }
    true
}

/// Whether the token list `ts` holds `t`.
fn tokens_contain(ts: &Vec<Vec<u8>>, t: &Vec<u8>) -> (r: bool)
    ensures
        r == ts.deep_view().contains(t@),
{
    let n = ts.len();
    let mut i: usize = 0;
    while i < n
        invariant
            n == ts@.len(),
            0 <= i <= n,
            forall|j: int| 0 <= j < i ==> ts.deep_view()[j] != t@,
        decreases n - i,
    {
        let hit = bytes_eq(&ts[i], t);
        proof {
            assert(ts.deep_view()[i as int] == ts@[i as int]@);
        }
        if hit {
            proof {
                assert(ts.deep_view()[i as int] == t@);
            }
            return true;
        }
        i = i + 1;
    }
    proof {
        assert(forall|j: int| 0 <= j < ts.deep_view().len() ==> ts.deep_view()[j] != t@);
    }
    false
}

/// Whether every token requested by `requested` is among those granted by
/// `granted`.
pub fn scope_within(requested: &str, granted: &str) -> (r: bool)
    ensures
        r == spec_scope_within(requested.spec_bytes(), granted.spec_bytes()),
{
    let req = scope_tokens(requested);
    let gr = scope_tokens(granted);
    let n = req.len();
    let mut i: usize = 0;
    while i < n
        invariant
            n == req@.len(),
            0 <= i <= n,
            req.deep_view() == spec_scope_tokens(requested.spec_bytes()),
            gr.deep_view() == spec_scope_tokens(granted.spec_bytes()),
            forall|j: int|
                0 <= j < i ==> spec_scope_tokens(granted.spec_bytes()).contains(
                    req.deep_view()[j],
                ),
        decreases n - i,
    {
        let hit = tokens_contain(&gr, &req[i]);
        proof {
            assert(req.deep_view()[i as int] == req@[i as int]@);
        }
        if !hit {
            proof {
                let t = req.deep_view()[i as int];
                assert(spec_scope_tokens(requested.spec_bytes()).contains(t));
                assert(spec_scope_set(requested.spec_bytes()).contains(t));
                assert(!spec_scope_set(granted.spec_bytes()).contains(t));
            }
            return false;
        }
        i = i + 1;
    }
    proof {
        assert forall|t: Seq<u8>| spec_scope_set(requested.spec_bytes()).contains(t) implies
            spec_scope_set(granted.spec_bytes()).contains(t) by {
            let k = choose|k: int|
                0 <= k < req.deep_view().len() && req.deep_view()[k] == t;
            assert(spec_scope_tokens(granted.spec_bytes()).contains(req.deep_view()[k]));
        }
    }
    true
}

} // verus!
