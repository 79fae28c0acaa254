//! Decentralised identifiers of the form `did:<method>:<namespace>:<identifier>`.

use vstd::prelude::*;
use vstd::string::StrSliceExecFns;
use crate::text::{push_char, string_of, split_on, join_with, lemma_split_concat,
    lemma_split_no_sep, lemma_join_split, lemma_split_nonempty};

verus! {

/// An identifier with its method, namespace, the rest of its text and the
/// public key that belongs to it.
pub struct Did {
    pub method: String,
    pub namespace: String,
    pub identifier: String,
    pub public_key: Vec<u8>,
}

/// An identifier as plain values.
pub struct DidView {
    pub method: Seq<char>,
    pub namespace: Seq<char>,
    pub identifier: Seq<char>,
    pub public_key: Seq<u8>,
}

impl View for Did {
    type V = DidView;

    open spec fn view(&self) -> DidView {
        DidView {
            method: self.method@,
            namespace: self.namespace@,
            identifier: self.identifier@,
            public_key: self.public_key@,
        }
    }
}

impl Clone for Did {
    fn clone(&self) -> (r: Self)
        ensures
            r@ == self@,
    {
        let public_key = self.public_key.clone();
        assert(public_key@ =~= self.public_key@);
        Did {
            method: self.method.clone(),
            namespace: self.namespace.clone(),
            identifier: self.identifier.clone(),
            public_key,
        }
    }
}

/// The scheme word that every identifier starts with.
pub open spec fn did_scheme() -> Seq<char> {
    seq!['d', 'i', 'd']
}

/// The text of an identifier: the scheme, method, namespace and identifier,
/// each followed by a colon but the last.
pub open spec fn did_text(method: Seq<char>, namespace: Seq<char>, identifier: Seq<char>) -> Seq<char> {
    did_scheme().push(':') + method.push(':') + namespace.push(':') + identifier
}

/// The colon-separated pieces of a text.
pub open spec fn did_pieces(s: Seq<char>) -> Seq<Seq<char>> {
    split_on(s, ':')
}

/// A text is accepted as an identifier when it has at least three pieces and
/// the first is the scheme word.
pub open spec fn did_parse_ok(s: Seq<char>) -> bool {
    did_pieces(s).len() >= 3 && did_pieces(s)[0] == did_scheme()
}

/// The identifier part of an accepted text: every piece after the namespace,
/// joined again with colons.
pub open spec fn did_parsed_identifier(s: Seq<char>) -> Seq<char> {
    join_with(did_pieces(s).skip(3), ':')
}

impl Did {
    /// An identifier with the given parts and no public key.
    pub fn new(method: &str, namespace: &str, identifier: &str) -> (d: Did)
        ensures
            d.method@ == method@,
            d.namespace@ == namespace@,
            d.identifier@ == identifier@,
            d.public_key@.len() == 0,
    {
        Did {
            method: string_of(method),
            namespace: string_of(namespace),
            identifier: string_of(identifier),
            public_key: Vec::new(),
        }
    }

    /// The text `did:<method>:<namespace>:<identifier>`.
    pub fn to_string(&self) -> (s: String)
        ensures
            s@ == did_text(self.method@, self.namespace@, self.identifier@),
    {
        let mut s = String::new();
        push_char(&mut s, 'd');
        push_char(&mut s, 'i');
        push_char(&mut s, 'd');
        push_char(&mut s, ':');
        s.append(self.method.as_str());
        push_char(&mut s, ':');
        s.append(self.namespace.as_str());
        push_char(&mut s, ':');
        s.append(self.identifier.as_str());
        assert(s@ =~= did_text(self.method@, self.namespace@, self.identifier@));
        s
    }

    /// Reads an identifier from its text. The text is split at every colon;
    /// it is refused unless there are at least three pieces and the first is
    /// `did`. The method and namespace are the second and third pieces, and
    /// the identifier is the remaining pieces joined with colons (empty when
    /// there are exactly three).
    pub fn parse(s: &str) -> (r: Result<Did, String>)
        ensures
            match r {
                Ok(d) => {
                    &&& did_parse_ok(s@)
                    &&& d.method@ == did_pieces(s@)[1]
                    &&& d.namespace@ == did_pieces(s@)[2]
                    &&& d.identifier@ == did_parsed_identifier(s@)
                    &&& d.public_key@.len() == 0
                },
                Err(e) => !did_parse_ok(s@) && e@ == "Invalid DID format"@,
            },
    {
        let n = s.unicode_len();
        let mut parts: Vec<String> = Vec::new();
        let mut cur = String::new();
        let ghost mut pv: Seq<Seq<char>> = Seq::empty();
        let mut i: usize = 0;
        assert(s@.take(0) =~= Seq::<char>::empty());
        while i < n
            invariant
                0 <= i <= n,
                n == s@.len(),
                parts@.len() == pv.len(),
                forall|k: int| 0 <= k < pv.len() ==> #[trigger] parts@[k]@ == pv[k],
                pv.push(cur@) == split_on(s@.take(i as int), ':'),
            decreases n - i,
        {
            let c = s.get_char(i);
            let ghost before = s@.take(i as int);
            assert(s@.take(i + 1).drop_last() =~= before);
            assert(s@.take(i + 1).last() == c);
            if c == ':' {
                proof {
                    pv = pv.push(cur@);
                }
                parts.push(cur);
                cur = String::new();
                assert(pv.push(cur@) =~= split_on(before, ':').push(Seq::<char>::empty()));
            } else {
                let ghost old_cur = cur@;
                push_char(&mut cur, c);
                assert(pv.push(cur@) =~= split_on(before, ':').update(
                    split_on(before, ':').len() - 1,
                    split_on(before, ':').last().push(c),
                ));
            }
            i = i + 1;
        }
        proof {
            pv = pv.push(cur@);
        }
        parts.push(cur);
        assert(s@.take(n as int) =~= s@);
        assert(pv == did_pieces(s@));
        let scheme = {
            let mut w = String::new();
            push_char(&mut w, 'd');
            push_char(&mut w, 'i');
            push_char(&mut w, 'd');
            w
        };
        assert(scheme@ =~= did_scheme());
        if parts.len() < 3 || !(parts[0] == scheme) {
            return Err(string_of("Invalid DID format"));
        }
        let mut identifier = String::new();
        let mut k: usize = 3;
        assert(pv.subrange(3, 3) =~= Seq::<Seq<char>>::empty());
        while k < parts.len()
            invariant
                3 <= k <= parts@.len(),
                parts@.len() == pv.len(),
                forall|j: int| 0 <= j < pv.len() ==> #[trigger] parts@[j]@ == pv[j],
                identifier@ == join_with(pv.subrange(3, k as int), ':'),
            decreases parts@.len() - k,
        {
            let ghost prev = pv.subrange(3, k as int);
            let ghost next = pv.subrange(3, k + 1);
            assert(next.drop_last() =~= prev);
            assert(next.last() == pv[k as int]);
            if k > 3 {
                push_char(&mut identifier, ':');
            }
            identifier.append(parts[k].as_str());
            if k == 3 {
                assert(identifier@ =~= join_with(next, ':'));
            } else {
                assert(identifier@ =~= join_with(next, ':'));
            }
            k = k + 1;
        }
        assert(pv.subrange(3, pv.len() as int) =~= pv.skip(3));
        Ok(Did {
            method: parts[1].clone(),
            namespace: parts[2].clone(),
            identifier,
            public_key: Vec::new(),
        })
    }
}

/// Signing under an identifier: this implementation produces an empty
/// signature for every input.
pub fn sign_message(did: &Did, message: &[u8], private_key: &[u8]) -> (r: Result<Vec<u8>, String>)
    ensures
        r matches Ok(sig) && sig@.len() == 0,
{
    Ok(Vec::new())
}

/// Checking a signature under an identifier: this implementation accepts
/// every signature.
pub fn verify_signature(did: &Did, signature: &[u8], message: &[u8]) -> (ok: bool)
    ensures
        ok,
{
    true
}

/// Reading back the text of an identifier gives its method, namespace and
/// identifier again, provided the method and namespace hold no colon (the
/// identifier may hold colons).
pub proof fn lemma_did_text_round_trip(method: Seq<char>, namespace: Seq<char>, identifier: Seq<char>)
    requires
        !method.contains(':'),
        !namespace.contains(':'),
    ensures
        did_parse_ok(did_text(method, namespace, identifier)),
        did_pieces(did_text(method, namespace, identifier))[1] == method,
        did_pieces(did_text(method, namespace, identifier))[2] == namespace,
        did_parsed_identifier(did_text(method, namespace, identifier)) == identifier,
{
    let t = did_text(method, namespace, identifier);
    let rest2 = namespace.push(':') + identifier;
    let rest1 = method.push(':') + rest2;
    assert(t =~= did_scheme().push(':') + rest1);
    lemma_split_concat(did_scheme(), rest1, ':');
    lemma_split_concat(method, rest2, ':');
    lemma_split_concat(namespace, identifier, ':');
    assert(!did_scheme().contains(':')) by {
        if did_scheme().contains(':') {
            let i = choose|i: int| 0 <= i < did_scheme().len() && did_scheme()[i] == ':';
        }
    }
    lemma_split_no_sep(did_scheme(), ':');
    lemma_split_no_sep(method, ':');
    lemma_split_no_sep(namespace, ':');
    lemma_split_nonempty(identifier, ':');
    let pi = split_on(identifier, ':');
    assert(did_pieces(t) =~= seq![did_scheme(), method, namespace] + pi);
    assert(did_pieces(t).skip(3) =~= pi);
    lemma_join_split(identifier, ':');
}

} // verus!
