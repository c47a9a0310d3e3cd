//! Parsing, modelling and canonical serialization of pronoun records:
//! single-line text entries (typically published as DNS TXT records) that
//! declare a person's pronoun preferences, optional tags and a free-text
//! comment.
//!
//! The crate is split into a data model ([`pronouns`]) and a single-pass
//! tolerant parser ([`parser`]) with a precise error classification.

use vstd::prelude::*;
use vstd::string::StringExecFns;

pub mod laws;
pub mod parser;
pub mod pronouns;
mod text;

pub use parser::parse_record;
pub use parser::ParserError;
pub use pronouns::CommonPronounDef;
pub use pronouns::PronounDef;
pub use pronouns::PronounRecord;
pub use pronouns::PronounSet;
pub use pronouns::PronounTag;

verus! {

/// The well-known label that pronoun records are published under.
pub open spec fn spec_pronoun_label() -> Seq<char> {
    "pronouns."@
}

/// The domain to query for a given identifier: `domain` itself when it
/// already starts with the `pronouns.` label, otherwise the label is
/// prepended.
pub open spec fn spec_qualify_domain(domain: Seq<char>) -> Seq<char> {
    if spec_pronoun_label().is_prefix_of(domain) {
        domain
    } else {
        spec_pronoun_label() + domain
    }
}

/// Prefix the well-known `pronouns.` label onto a domain, unless the domain
/// already carries it.
pub fn qualify_domain(domain: &str) -> (r: String)
    ensures
        r@ == spec_qualify_domain(domain@),
{
    let label = "pronouns.";
    let label_len = label.unicode_len();
    let domain_len = domain.unicode_len();
    let mut has_label = label_len <= domain_len;
    let mut i: usize = 0;
    while has_label && i < label_len
        invariant
            label@ == spec_pronoun_label(),
            label_len == label@.len(),
            domain_len == domain@.len(),
            i <= label_len,
            has_label ==> label_len <= domain_len,
            has_label ==> forall|j: int| 0 <= j < i ==> label@[j] == domain@[j],
            !has_label ==> !spec_pronoun_label().is_prefix_of(domain@),
        decreases label_len - i + (if has_label { 1int } else { 0int }),
    {
        if label.get_char(i) != domain.get_char(i) {
            proof {
                assert(!spec_pronoun_label().is_prefix_of(domain@)) by {
                    if spec_pronoun_label().is_prefix_of(domain@) {
                        assert(domain@.subrange(0, label@.len() as int)[i as int] == label@[i as int]);
                    }
                }
            }
            has_label = false;
        } else {
            i += 1;
        }
    }
    if has_label && i == label_len {
        proof {
            assert(label@.is_prefix_of(domain@)) by {
                assert(label@ =~= domain@.subrange(0, label@.len() as int));
            }
        }
        String::from_str(domain)
    } else {
        let mut qualified = String::from_str(label);
        qualified.append(domain);
        qualified
    }
}

} // verus!
