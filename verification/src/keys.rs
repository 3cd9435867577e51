//! Caller identity and the document key scheme.
//!
//! A document key is `doc_<callerText>_<timestamp>`; the owner of a document
//! is encoded in its key, and listing by owner matches on the key prefix
//! `doc_<callerText>_`.

use crate::text::{dec_rep, lemma_dec_rep_digits, lemma_dec_rep_injective, u64_to_string};
use vstd::prelude::*;

verus! {

/// An opaque authenticated principal handle, as the host hands it over: a
/// flag for the reserved anonymous identity, and its unique textual form.
#[derive(Debug)]
pub struct CallerId {
    pub anonymous: bool,
    pub text: String,
}

/// The textual forms the host produces never contain the underscore that
/// the key scheme uses as its separator; the ownership laws rest on this.
pub open spec fn no_separator(text: Seq<char>) -> bool {
    forall|i: int| 0 <= i < text.len() ==> text[i] != '_'
}

/// The key prefix that marks a caller's documents.
pub open spec fn doc_key_prefix(text: Seq<char>) -> Seq<char> {
    "doc_"@ + text + "_"@
}

/// The storage key of the document generated for a caller at a time.
pub open spec fn doc_key(text: Seq<char>, now: u64) -> Seq<char> {
    doc_key_prefix(text) + dec_rep(now as nat)
}

/// Builds `doc_<text>_` as a string.
pub fn make_owner_prefix(text: &str) -> (r: String)
    ensures
        r@ == doc_key_prefix(text@),
{
    let mut s = "doc_".to_owned();
    s.append(text);
    s.append("_");
    assert(s@ =~= doc_key_prefix(text@));
    s
}

/// Builds `doc_<text>_<now>` as a string.
pub fn make_doc_key(text: &str, now: u64) -> (r: String)
    ensures
        r@ == doc_key(text@, now),
{
    let mut s = make_owner_prefix(text);
    let d = u64_to_string(now);
    s.append(d.as_str());
    assert(s@ =~= doc_key(text@, now));
    s
}

/// Law: document keys are unique — distinct (caller, timestamp) pairs give
/// distinct keys, for caller texts free of the separator.
pub proof fn lemma_doc_key_injective(t1: Seq<char>, n1: u64, t2: Seq<char>, n2: u64)
    requires
        no_separator(t1),
        no_separator(t2),
        doc_key(t1, n1) == doc_key(t2, n2),
    ensures
        t1 == t2,
        n1 == n2,
{
    reveal_strlit("doc_");
    reveal_strlit("_");
    lemma_dec_rep_digits(n1 as nat);
    lemma_dec_rep_digits(n2 as nat);
    let k = doc_key(t1, n1);
    assert(k.len() == 5 + t1.len() + dec_rep(n1 as nat).len());
    assert(k.len() == 5 + t2.len() + dec_rep(n2 as nat).len());
    if t1.len() < t2.len() {
        let p = 4 + t1.len() as int;
        assert(k[p] == '_') by {
            assert(doc_key_prefix(t1)[p] == '_');
            assert(p < doc_key_prefix(t1).len());
        }
        assert(k[p] == t2[t1.len() as int]) by {
            assert(doc_key_prefix(t2)[p] == t2[t1.len() as int]);
            assert(p < doc_key_prefix(t2).len());
        }
        assert(false);
    }
    if t2.len() < t1.len() {
        let p = 4 + t2.len() as int;
        assert(k[p] == '_') by {
            assert(doc_key_prefix(t2)[p] == '_');
            assert(p < doc_key_prefix(t2).len());
        }
        assert(k[p] == t1[t2.len() as int]) by {
            assert(doc_key_prefix(t1)[p] == t1[t2.len() as int]);
            assert(p < doc_key_prefix(t1).len());
        }
        assert(false);
    }
    assert(t1.len() == t2.len());
    assert(t1 =~= t2) by {
        assert forall|i: int| 0 <= i < t1.len() implies t1[i] == t2[i] by {
            assert(k[4 + i] == t1[i]) by {
                assert(doc_key_prefix(t1)[4 + i] == t1[i]);
            }
            assert(k[4 + i] == t2[i]) by {
                assert(doc_key_prefix(t2)[4 + i] == t2[i]);
            }
        }
    }
    assert(dec_rep(n1 as nat) =~= dec_rep(n2 as nat)) by {
        assert(dec_rep(n1 as nat).len() == dec_rep(n2 as nat).len());
        let base = 5 + t1.len() as int;
        assert forall|i: int| 0 <= i < dec_rep(n1 as nat).len() implies dec_rep(n1 as nat)[i]
            == dec_rep(n2 as nat)[i] by {
            assert(k[base + i] == dec_rep(n1 as nat)[i]);
            assert(k[base + i] == dec_rep(n2 as nat)[i]);
        }
    }
    lemma_dec_rep_injective(n1 as nat, n2 as nat);
}

/// Law: a document key generated for one caller carries another caller's
/// owner prefix exactly when the two callers are the same, for caller texts
/// free of the separator.
pub proof fn lemma_owner_prefix_exact(t1: Seq<char>, t2: Seq<char>, n: u64)
    requires
        no_separator(t1),
        no_separator(t2),
    ensures
        doc_key_prefix(t1).is_prefix_of(doc_key(t2, n)) <==> t1 == t2,
{
    reveal_strlit("doc_");
    reveal_strlit("_");
    lemma_dec_rep_digits(n as nat);
    crate::text::lemma_dec_rep_len(n as nat);
    let p = doc_key_prefix(t1);
    let k = doc_key(t2, n);
    if t1 == t2 {
        assert(p.is_prefix_of(k)) by {
            assert(k.subrange(0, p.len() as int) =~= p);
        }
    }
    if p.is_prefix_of(k) {
        assert(k.subrange(0, p.len() as int) =~= p);
        if t1.len() < t2.len() {
            let q = 4 + t1.len() as int;
            assert(p[q] == '_');
            assert(k[q] == t2[t1.len() as int]) by {
                assert(doc_key_prefix(t2)[q] == t2[t1.len() as int]);
            }
            assert(p[q] == k.subrange(0, p.len() as int)[q]);
            assert(false);
        }
        if t2.len() < t1.len() {
            let q = 4 + t2.len() as int;
            assert(k[q] == '_') by {
                assert(doc_key_prefix(t2)[q] == '_');
            }
            if q < p.len() {
                assert(p[q] == ("doc_"@ + t1)[q]);
                assert(p[q] == t1[t2.len() as int]);
                assert(p[q] == k.subrange(0, p.len() as int)[q]);
                assert(false);
            }
        }
        assert(t1.len() == t2.len());
        assert(t1 =~= t2) by {
            assert forall|i: int| 0 <= i < t1.len() implies t1[i] == t2[i] by {
                assert(p[4 + i] == t1[i]);
                assert(k[4 + i] == t2[i]) by {
                    assert(doc_key_prefix(t2)[4 + i] == t2[i]);
                }
                assert(p[4 + i] == k.subrange(0, p.len() as int)[4 + i]);
            }
        }
    }
}

} // verus!
