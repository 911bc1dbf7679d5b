//! The key/value bag that moves a trace context across a boundary.

use vstd::prelude::*;
use crate::dict::Dict;

verus! {

/// An ASCII capital letter becomes its small letter; any other character stays.
pub open spec fn fold_char(c: char) -> char {
    if 'A' <= c && c <= 'Z' {
        ((c as u32) + 32) as char
    } else {
        c
    }
}

/// The form under which a carrier keeps and looks up a key: transports may
/// change the case of header names, so keys are told apart without regard
/// to ASCII case.
pub open spec fn fold_key(key: Seq<char>) -> Seq<char> {
    Seq::new(key.len(), |i: int| fold_char(key[i]))
}

/// Folding a folded key changes nothing.
pub proof fn lemma_fold_key_idempotent(key: Seq<char>)
    ensures
        fold_key(fold_key(key)) == fold_key(key),
{
    assert(fold_key(fold_key(key)) =~= fold_key(key));
}

/// `str::to_ascii_lowercase` of the standard library: a copy of the text in
/// which each of the letters 'A' to 'Z' is replaced by its small letter and
/// every other character is kept.
#[verifier::external_body]
fn ascii_lowercase(text: &str) -> (folded: String)
    ensures
        folded@ == fold_key(text@),
{
    text.to_ascii_lowercase()
}

/// A mapping from header names to header values. Names are kept in folded
/// form, so a lookup finds a value under any spelling of its name's case.
#[derive(Debug)]
pub struct Carrier {
    fields: Dict<String>,
}

impl View for Carrier {
    type V = Map<Seq<char>, Seq<char>>;

    closed spec fn view(&self) -> Map<Seq<char>, Seq<char>> {
        self.fields@
    }
}

impl Carrier {
    #[verifier::type_invariant]
    spec fn well_formed(self) -> bool {
        forall|key: Seq<char>| #[trigger] self.fields@.contains_key(key) ==> fold_key(key) == key
    }

    /// The folded names in the order in which they were first set.
    pub closed spec fn key_order(&self) -> Seq<Seq<char>> {
        self.fields.key_order()
    }

    pub fn new() -> (carrier: Self)
        ensures
            carrier@ == Map::<Seq<char>, Seq<char>>::empty(),
            carrier.key_order() == Seq::<Seq<char>>::empty(),
    {
        Carrier { fields: Dict::new() }
    }

    /// The number of names. Each stands once in `key_order`, in folded form.
    pub fn len(&self) -> (n: usize)
        ensures
            n == self.key_order().len(),
            n == self@.dom().len(),
            self@.dom().finite(),
            self.key_order().no_duplicates(),
            self.key_order().to_set() == self@.dom(),
            forall|key: Seq<char>| #[trigger] self@.contains_key(key) ==> fold_key(key) == key,
    {
        proof {
            use_type_invariant(self);
        }
        self.fields.len()
    }

    /// The folded name at a position of `key_order`.
    pub fn key_at(&self, position: usize) -> (key: &str)
        requires
            position < self.key_order().len(),
        ensures
            key@ == self.key_order()[position as int],
    {
        self.fields.key_at(position)
    }

    /// The value under the name at a position of `key_order`.
    pub fn value_at(&self, position: usize) -> (value: &str)
        requires
            position < self.key_order().len(),
        ensures
            self@.contains_key(self.key_order()[position as int]),
            value@ == self@[self.key_order()[position as int]],
    {
        self.fields.value_at(position).as_str()
    }

    /// The value under `key`, whatever the case of its letters.
    pub fn get(&self, key: &str) -> (value: Option<&str>)
        ensures
            match value {
                Some(v) => self@.contains_key(fold_key(key@)) && self@[fold_key(key@)] == v@,
                None => !self@.contains_key(fold_key(key@)),
            },
    {
        let folded = ascii_lowercase(key);
        match self.fields.get(folded.as_str()) {
            Some(v) => Some(v.as_str()),
            None => None,
        }
    }

    /// Sets the value under `key`, replacing the one that stood under any
    /// spelling of it. No other name is touched.
    pub fn insert(&mut self, key: &str, value: &str)
        ensures
            final(self)@ == old(self)@.insert(fold_key(key@), value@),
            final(self).key_order() == if old(self)@.contains_key(fold_key(key@)) {
                old(self).key_order()
            } else {
                old(self).key_order().push(fold_key(key@))
            },
    {
        proof {
            use_type_invariant(&*self);
            lemma_fold_key_idempotent(key@);
        }
        let folded = ascii_lowercase(key);
        let mut fields: Dict<String> = Dict::new();
        std::mem::swap(&mut fields, &mut self.fields);
        fields.insert(folded.as_str(), String::from_str(value));
        self.fields = fields;
    }
}

} // verus!
