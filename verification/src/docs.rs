use crate::syntax::{Attribute, FunctionLike};
use crate::text::{same_text, string_seqs};
use vstd::prelude::*;

verus! {

/// The name of the attribute that carries documentation.
pub open spec fn doc_name() -> Seq<char> {
    seq!['d', 'o', 'c']
}

/// Whether `attr` carries documentation: it is named `doc` and has the form
/// `doc = "text"`.
pub open spec fn is_doc(attr: Attribute) -> bool {
    &&& attr.name matches Some(name) && name@ == doc_name()
    &&& attr.value is Some
}

/// The documentation texts among `attrs`, one for each attribute that carries
/// documentation, in order.
pub open spec fn doc_texts(attrs: Seq<Attribute>) -> Seq<Seq<char>>
    decreases attrs.len(),
{
    if attrs.len() == 0 {
        Seq::empty()
    } else if is_doc(attrs.last()) {
        doc_texts(attrs.drop_last()).push(attrs.last().value->0@)
    } else {
        doc_texts(attrs.drop_last())
    }
}

/// Decides whether `name` is the name of the attribute that carries documentation.
pub fn names_doc(name: &str) -> (yes: bool)
    ensures
        yes == (name@ == doc_name()),
{
    proof {
        reveal_strlit("doc");
        assert("doc"@ =~= doc_name());
    }
    same_text(name, "doc")
}

/// Extracts the documentation of `func`: the text of each of its documentation
/// attributes, in source order and as it stands.
pub fn extract_doc_comments(func: &FunctionLike) -> (docs: Vec<String>)
    ensures
        string_seqs(docs@) == doc_texts(func.definition.attrs@),
{
    let attrs = &func.definition.attrs;
    let mut docs: Vec<String> = Vec::new();
    let mut i: usize = 0;
    assert(string_seqs(docs@) =~= doc_texts(attrs@.take(0)));
    while i < attrs.len()
        invariant
            i <= attrs.len(),
            string_seqs(docs@) == doc_texts(attrs@.take(i as int)),
        decreases attrs.len() - i,
    {
        let attr = &attrs[i];
        let ghost before = string_seqs(docs@);
        assert(attrs@.take(i + 1).drop_last() == attrs@.take(i as int));
        assert(attrs@.take(i + 1).last() == *attr);
        match (&attr.name, &attr.value) {
            (Some(name), Some(value)) => {
                if names_doc(name.as_str()) {
                    let text = value.clone();
                    docs.push(text);
                    assert(string_seqs(docs@) =~= before.push(value@));
                }
            },
            _ => {},
        }
        i += 1;
    }
    assert(attrs@.take(attrs.len() as int) == attrs@);
    docs
}

} // verus!
