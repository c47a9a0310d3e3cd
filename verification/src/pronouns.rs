//! The data model for pronoun records.
//!
//! A [`PronounRecord`] is the result of parsing one line: an optional
//! [`PronounSet`] plus an optional free-text comment.  A set is either an
//! explicit [`PronounDef`] with its tags, the wildcard `*`, or the explicit
//! "no pronouns" marker `!`.  The module also provides the total order used
//! to rank records (preferred entries first) and the canonical serialization
//! back to record text.

use core::cmp::Ordering;
use vstd::prelude::*;
use vstd::string::StringExecFns;

use crate::text::str_eq;

verus! {

/// A recognized metadata tag on a defined pronoun set.
///
/// The enumeration is open for future recognized values; unrecognized tag
/// text is a parse error, not a tag.
#[derive(Debug, Clone, Copy, PartialEq, Eq, Structural)]
#[non_exhaustive]
pub enum PronounTag {
    Preferred,
    Plural,
}

/// The tag recognized in `s`, if any.  Recognition is exact: only the
/// lowercase spellings `preferred` and `plural` are tags.
pub open spec fn spec_tag_of(s: Seq<char>) -> Option<PronounTag> {
    if s == "preferred"@ {
        Some(PronounTag::Preferred)
    } else if s == "plural"@ {
        Some(PronounTag::Plural)
    } else {
        None
    }
}

/// The canonical text of a tag.
pub open spec fn spec_tag_str(t: PronounTag) -> Seq<char> {
    match t {
        PronounTag::Preferred => "preferred"@,
        PronounTag::Plural => "plural"@,
    }
}

impl PronounTag {
    /// The single source of truth for recognized tags.
    pub fn from_string(string: String) -> (r: Option<PronounTag>)
        ensures
            r == spec_tag_of(string@),
    {
        if str_eq(string.as_str(), "preferred") {
            Some(PronounTag::Preferred)
        } else if str_eq(string.as_str(), "plural") {
            Some(PronounTag::Plural)
        } else {
            None
        }
    }

    /// The canonical text of this tag.
    pub fn as_str(&self) -> (r: &'static str)
        ensures
            r@ == spec_tag_str(*self),
    {
        match self {
            PronounTag::Preferred => "preferred",
            PronounTag::Plural => "plural",
        }
    }
}

/// One of the four canonical pronoun families, used to fill unset optional
/// fields of a definition whose explicit fields match the family.
#[derive(Debug, Clone, Copy, PartialEq, Eq, Structural)]
pub enum CommonPronounDef {
    Masculine,
    Feminine,
    Neuter,
    TheyThem,
}

/// The canonical subject of a family.
pub open spec fn spec_family_subject(f: CommonPronounDef) -> Seq<char> {
    match f {
        CommonPronounDef::Masculine => "he"@,
        CommonPronounDef::Feminine => "she"@,
        CommonPronounDef::Neuter => "it"@,
        CommonPronounDef::TheyThem => "they"@,
    }
}

/// The canonical object of a family.
pub open spec fn spec_family_object(f: CommonPronounDef) -> Seq<char> {
    match f {
        CommonPronounDef::Masculine => "him"@,
        CommonPronounDef::Feminine => "her"@,
        CommonPronounDef::Neuter => "it"@,
        CommonPronounDef::TheyThem => "them"@,
    }
}

/// The canonical possessive determiner of a family.
pub open spec fn spec_family_possessive_determiner(f: CommonPronounDef) -> Seq<char> {
    match f {
        CommonPronounDef::Masculine => "his"@,
        CommonPronounDef::Feminine => "her"@,
        CommonPronounDef::Neuter => "its"@,
        CommonPronounDef::TheyThem => "their"@,
    }
}

/// The canonical possessive pronoun of a family.
pub open spec fn spec_family_possessive_pronoun(f: CommonPronounDef) -> Seq<char> {
    match f {
        CommonPronounDef::Masculine => "his"@,
        CommonPronounDef::Feminine => "hers"@,
        CommonPronounDef::Neuter => "its"@,
        CommonPronounDef::TheyThem => "theirs"@,
    }
}

/// The canonical reflexive of a family.
pub open spec fn spec_family_reflexive(f: CommonPronounDef) -> Seq<char> {
    match f {
        CommonPronounDef::Masculine => "himself"@,
        CommonPronounDef::Feminine => "herself"@,
        CommonPronounDef::Neuter => "itself"@,
        CommonPronounDef::TheyThem => "themself"@,
    }
}

impl CommonPronounDef {
    pub fn subject(&self) -> (r: &'static str)
        ensures
            r@ == spec_family_subject(*self),
    {
        match self {
            CommonPronounDef::Masculine => "he",
            CommonPronounDef::Feminine => "she",
            CommonPronounDef::Neuter => "it",
            CommonPronounDef::TheyThem => "they",
        }
    }

    pub fn object(&self) -> (r: &'static str)
        ensures
            r@ == spec_family_object(*self),
    {
        match self {
            CommonPronounDef::Masculine => "him",
            CommonPronounDef::Feminine => "her",
            CommonPronounDef::Neuter => "it",
            CommonPronounDef::TheyThem => "them",
        }
    }

    pub fn possessive_determiner(&self) -> (r: &'static str)
        ensures
            r@ == spec_family_possessive_determiner(*self),
    {
        match self {
            CommonPronounDef::Masculine => "his",
            CommonPronounDef::Feminine => "her",
            CommonPronounDef::Neuter => "its",
            CommonPronounDef::TheyThem => "their",
        }
    }

    pub fn possessive_pronoun(&self) -> (r: &'static str)
        ensures
            r@ == spec_family_possessive_pronoun(*self),
    {
        match self {
            CommonPronounDef::Masculine => "his",
            CommonPronounDef::Feminine => "hers",
            CommonPronounDef::Neuter => "its",
            CommonPronounDef::TheyThem => "theirs",
        }
    }

    pub fn reflexive(&self) -> (r: &'static str)
        ensures
            r@ == spec_family_reflexive(*self),
    {
        match self {
            CommonPronounDef::Masculine => "himself",
            CommonPronounDef::Feminine => "herself",
            CommonPronounDef::Neuter => "itself",
            CommonPronounDef::TheyThem => "themself",
        }
    }
}

/// The mathematical value of a [`PronounDef`]: its five fields as character
/// sequences plus the derived canonical family.
pub ghost struct DefView {
    pub subject: Seq<char>,
    pub object: Seq<char>,
    pub possessive_determiner: Option<Seq<char>>,
    pub possessive_pronoun: Option<Seq<char>>,
    pub reflexive: Option<Seq<char>>,
    pub common_def: Option<CommonPronounDef>,
}

/// The family whose canonical subject and object are exactly `subject` and
/// `object`, if any.
pub open spec fn spec_family_of(subject: Seq<char>, object: Seq<char>) -> Option<CommonPronounDef> {
    if subject == "he"@ && object == "him"@ {
        Some(CommonPronounDef::Masculine)
    } else if subject == "she"@ && object == "her"@ {
        Some(CommonPronounDef::Feminine)
    } else if subject == "it"@ && object == "it"@ {
        Some(CommonPronounDef::Neuter)
    } else if subject == "they"@ && object == "them"@ {
        Some(CommonPronounDef::TheyThem)
    } else {
        None
    }
}

/// The derived canonical family of a definition: the family matching subject
/// and object, provided every explicitly-given optional field equals the
/// family's canonical value (unset fields match vacuously).
pub open spec fn spec_guess_common(
    subject: Seq<char>,
    object: Seq<char>,
    possessive_determiner: Option<Seq<char>>,
    possessive_pronoun: Option<Seq<char>>,
    reflexive: Option<Seq<char>>,
) -> Option<CommonPronounDef> {
    match spec_family_of(subject, object) {
        Some(f) => {
            if (match possessive_determiner {
                Some(s) => s == spec_family_possessive_determiner(f),
                None => true,
            }) && (match possessive_pronoun {
                Some(s) => s == spec_family_possessive_pronoun(f),
                None => true,
            }) && (match reflexive {
                Some(s) => s == spec_family_reflexive(f),
                None => true,
            }) {
                Some(f)
            } else {
                None
            }
        },
        None => None,
    }
}

impl DefView {
    /// The stored family is exactly the one derived from the five fields.
    pub open spec fn wf(self) -> bool {
        self.common_def == spec_guess_common(
            self.subject,
            self.object,
            self.possessive_determiner,
            self.possessive_pronoun,
            self.reflexive,
        )
    }

    /// The possessive determiner as read: the explicit field, or the
    /// family's canonical value when the field is unset.
    pub open spec fn resolved_possessive_determiner(self) -> Option<Seq<char>> {
        match self.possessive_determiner {
            Some(s) => Some(s),
            None => match self.common_def {
                Some(f) => Some(spec_family_possessive_determiner(f)),
                None => None,
            },
        }
    }

    /// The possessive pronoun as read, with the family fallback.
    pub open spec fn resolved_possessive_pronoun(self) -> Option<Seq<char>> {
        match self.possessive_pronoun {
            Some(s) => Some(s),
            None => match self.common_def {
                Some(f) => Some(spec_family_possessive_pronoun(f)),
                None => None,
            },
        }
    }

    /// The reflexive as read, with the family fallback.
    pub open spec fn resolved_reflexive(self) -> Option<Seq<char>> {
        match self.reflexive {
            Some(s) => Some(s),
            None => match self.common_def {
                Some(f) => Some(spec_family_reflexive(f)),
                None => None,
            },
        }
    }
}

/// An explicit pronoun definition: subject and object are mandatory, the
/// three remaining fields optional.  All fields are stored lowercased.
#[derive(Debug, Clone, PartialEq, Eq)]
pub struct PronounDef {
    pub subject: String,
    pub object: String,
    pub possessive_determiner: Option<String>,
    pub possessive_pronoun: Option<String>,
    pub reflexive: Option<String>,
    pub(crate) common_def: Option<CommonPronounDef>,
}

impl View for PronounDef {
    type V = DefView;

    closed spec fn view(&self) -> DefView {
        DefView {
            subject: self.subject@,
            object: self.object@,
            possessive_determiner: match self.possessive_determiner {
                Some(s) => Some(s@),
                None => None,
            },
            possessive_pronoun: match self.possessive_pronoun {
                Some(s) => Some(s@),
                None => None,
            },
            reflexive: match self.reflexive {
                Some(s) => Some(s@),
                None => None,
            },
            common_def: self.common_def,
        }
    }
}

impl PronounDef {
    /// Build a definition from its five fields; the canonical family is
    /// derived here, once, as a pure function of the fields.
    pub fn new(
        subject: String,
        object: String,
        possessive_determiner: Option<String>,
        possessive_pronoun: Option<String>,
        reflexive: Option<String>,
    ) -> (r: PronounDef)
        ensures
            r@.subject == subject@,
            r@.object == object@,
            r@.possessive_determiner == (match possessive_determiner {
                Some(s) => Some(s@),
                None => None::<Seq<char>>,
            }),
            r@.possessive_pronoun == (match possessive_pronoun {
                Some(s) => Some(s@),
                None => None::<Seq<char>>,
            }),
            r@.reflexive == (match reflexive {
                Some(s) => Some(s@),
                None => None::<Seq<char>>,
            }),
            r@.wf(),
    {
        let mut def = PronounDef {
            subject,
            object,
            possessive_determiner,
            possessive_pronoun,
            reflexive,
            common_def: None,
        };
        def.guess_common();
        def
    }

    pub fn subject(&self) -> (r: &str)
        ensures
            r@ == self@.subject,
    {
        &self.subject
    }

    pub fn object(&self) -> (r: &str)
        ensures
            r@ == self@.object,
    {
        &self.object
    }

    /// The possessive determiner: the explicit field, or the canonical
    /// family's value when the field is unset and a family was derived.
    pub fn possessive_determiner(&self) -> (r: Option<&str>)
        ensures
            r.deep_view() == self@.resolved_possessive_determiner(),
    {
        match &self.possessive_determiner {
            Some(s) => Some(s.as_str()),
            None => match &self.common_def {
                Some(f) => Some(f.possessive_determiner()),
                None => None,
            },
        }
    }

    /// The possessive pronoun, with the canonical-family fallback.
    pub fn possessive_pronoun(&self) -> (r: Option<&str>)
        ensures
            r.deep_view() == self@.resolved_possessive_pronoun(),
    {
        match &self.possessive_pronoun {
            Some(s) => Some(s.as_str()),
            None => match &self.common_def {
                Some(f) => Some(f.possessive_pronoun()),
                None => None,
            },
        }
    }

    /// The reflexive, with the canonical-family fallback.
    pub fn reflexive(&self) -> (r: Option<&str>)
        ensures
            r.deep_view() == self@.resolved_reflexive(),
    {
        match &self.reflexive {
            Some(s) => Some(s.as_str()),
            None => match &self.common_def {
                Some(f) => Some(f.reflexive()),
                None => None,
            },
        }
    }

    /// The canonical family this definition was recognized as, if any.
    pub fn common_def(&self) -> (r: Option<&CommonPronounDef>)
        ensures
            r == (match self@.common_def {
                Some(f) => Some(&f),
                None => None::<&CommonPronounDef>,
            }),
    {
        self.common_def.as_ref()
    }

    /// How a definition's view reads off its fields.
    pub(crate) proof fn lemma_view_fields(&self)
        ensures
            self@.subject == self.subject@,
            self@.object == self.object@,
            self@.possessive_determiner == self.possessive_determiner.deep_view(),
            self@.possessive_pronoun == self.possessive_pronoun.deep_view(),
            self@.reflexive == self.reflexive.deep_view(),
            self@.common_def == self.common_def,
    {
    }

    /// Whether the stored canonical family is exactly the one the five
    /// fields derive: true of every definition this crate constructs.
    pub fn family_consistent(&self) -> (r: bool)
        ensures
            r == self@.wf(),
    {
        let derived = self.derive_family();
        match (&self.common_def, &derived) {
            (Some(a), Some(b)) => *a == *b,
            (None, None) => true,
            _ => false,
        }
    }

    /// Re-derive the canonical family from the current fields.
    fn guess_common(&mut self)
        ensures
            final(self).subject == old(self).subject,
            final(self).object == old(self).object,
            final(self).possessive_determiner == old(self).possessive_determiner,
            final(self).possessive_pronoun == old(self).possessive_pronoun,
            final(self).reflexive == old(self).reflexive,
            final(self)@.common_def == spec_guess_common(
                old(self)@.subject,
                old(self)@.object,
                old(self)@.possessive_determiner,
                old(self)@.possessive_pronoun,
                old(self)@.reflexive,
            ),
    {
        let family = self.derive_family();
        self.common_def = family;
    }

    /// The canonical family the five fields derive, if any.
    fn derive_family(&self) -> (r: Option<CommonPronounDef>)
        ensures
            r == spec_guess_common(
                self@.subject,
                self@.object,
                self@.possessive_determiner,
                self@.possessive_pronoun,
                self@.reflexive,
            ),
    {
        let family = if str_eq(self.subject.as_str(), "he") && str_eq(self.object.as_str(), "him") {
            Some(CommonPronounDef::Masculine)
        } else if str_eq(self.subject.as_str(), "she") && str_eq(self.object.as_str(), "her") {
            Some(CommonPronounDef::Feminine)
        } else if str_eq(self.subject.as_str(), "it") && str_eq(self.object.as_str(), "it") {
            Some(CommonPronounDef::Neuter)
        } else if str_eq(self.subject.as_str(), "they") && str_eq(self.object.as_str(), "them") {
            Some(CommonPronounDef::TheyThem)
        } else {
            None
        };

        if let Some(f) = family {
            let possessive_determiner_match = match &self.possessive_determiner {
                Some(s) => str_eq(s.as_str(), f.possessive_determiner()),
                None => true,
            };
            let possessive_pronoun_match = match &self.possessive_pronoun {
                Some(s) => str_eq(s.as_str(), f.possessive_pronoun()),
                None => true,
            };
            let reflexive_match = match &self.reflexive {
                Some(s) => str_eq(s.as_str(), f.reflexive()),
                None => true,
            };
            if possessive_determiner_match && possessive_pronoun_match && reflexive_match {
                return Some(f);
            }
        }
        None
    }
}

/// One pronoun set: an explicit definition with tags, the wildcard `*`, or
/// the explicit "no pronouns" marker `!`.
///
/// Only `Defined` may carry tags; the record grammar rejects tags on the
/// other two variants.
#[derive(Debug, Clone, PartialEq, Eq)]
pub enum PronounSet {
    Defined { definition: PronounDef, tags: Vec<PronounTag> },
    /// Represented by `*` in the record text.
    Any,
    /// Represented by `!` in the record text.
    NoPronouns,
}

/// The mathematical value of a [`PronounSet`].
pub ghost enum SetView {
    Defined { definition: DefView, tags: Seq<PronounTag> },
    Any,
    NoPronouns,
}

impl View for PronounSet {
    type V = SetView;

    open spec fn view(&self) -> SetView {
        match self {
            PronounSet::Defined { definition, tags } => SetView::Defined {
                definition: definition@,
                tags: tags@,
            },
            PronounSet::Any => SetView::Any,
            PronounSet::NoPronouns => SetView::NoPronouns,
        }
    }
}

impl PronounSet {
    /// Build a `Defined` set; the definition's canonical family is derived
    /// from the given fields.
    pub fn new_defined(
        subject: String,
        object: String,
        possessive_adjective: Option<String>,
        possessive_pronoun: Option<String>,
        reflexive: Option<String>,
        tags: Vec<PronounTag>,
    ) -> (r: PronounSet)
        ensures
            r@ == (SetView::Defined {
                definition: DefView {
                    subject: subject@,
                    object: object@,
                    possessive_determiner: possessive_adjective.deep_view(),
                    possessive_pronoun: possessive_pronoun.deep_view(),
                    reflexive: reflexive.deep_view(),
                    common_def: spec_guess_common(
                        subject@,
                        object@,
                        possessive_adjective.deep_view(),
                        possessive_pronoun.deep_view(),
                        reflexive.deep_view(),
                    ),
                },
                tags: tags@,
            }),
    {
        let def = PronounDef::new(
            subject,
            object,
            possessive_adjective,
            possessive_pronoun,
            reflexive,
        );
        PronounSet::Defined { definition: def, tags }
    }
}

/// A parsed record: an optional pronoun set and an optional comment.  The
/// grammar never produces a record with both absent (such input is the
/// `Empty` error).
#[derive(Debug, Clone, PartialEq, Eq)]
pub struct PronounRecord {
    pub set: Option<PronounSet>,
    pub comment: Option<String>,
}

/// The mathematical value of a [`PronounRecord`].
pub ghost struct RecordView {
    pub set: Option<SetView>,
    pub comment: Option<Seq<char>>,
}

impl View for PronounRecord {
    type V = RecordView;

    open spec fn view(&self) -> RecordView {
        RecordView {
            set: match &self.set {
                Some(s) => Some(s@),
                None => None,
            },
            comment: match &self.comment {
                Some(c) => Some(c@),
                None => None,
            },
        }
    }
}

impl PronounRecord {
    pub fn new(set: Option<PronounSet>, comment: Option<String>) -> (r: PronounRecord)
        ensures
            r@.set == (match set {
                Some(s) => Some(s@),
                None => None::<SetView>,
            }),
            r@.comment == comment.deep_view(),
    {
        PronounRecord { set, comment }
    }
}

// ---------------------------------------------------------------------------
// Ordering
// ---------------------------------------------------------------------------

/// Whether a tag sequence carries the `Preferred` tag.
pub open spec fn spec_has_preferred(tags: Seq<PronounTag>) -> bool {
    tags.contains(PronounTag::Preferred)
}

/// Lexicographic comparison of character sequences by code point.
pub open spec fn spec_cmp_chars(a: Seq<char>, b: Seq<char>) -> Ordering
    decreases a.len(),
{
    if a.len() == 0 && b.len() == 0 {
        Ordering::Equal
    } else if a.len() == 0 {
        Ordering::Less
    } else if b.len() == 0 {
        Ordering::Greater
    } else if (a[0] as u32) < (b[0] as u32) {
        Ordering::Less
    } else if (b[0] as u32) < (a[0] as u32) {
        Ordering::Greater
    } else {
        spec_cmp_chars(a.drop_first(), b.drop_first())
    }
}

/// The total order over pronoun sets, used to rank query results:
/// a preferred-tagged definition sorts before one that is not; any
/// definition sorts before the `*` and `!` markers; definitions of equal
/// preferred-status are ordered by subject, then object; `*` sorts before
/// `!`.
pub open spec fn spec_cmp_set(a: SetView, b: SetView) -> Ordering {
    match (a, b) {
        (
            SetView::Defined { definition: da, tags: ta },
            SetView::Defined { definition: db, tags: tb },
        ) => {
            let a_preferred = spec_has_preferred(ta);
            let b_preferred = spec_has_preferred(tb);
            if a_preferred && !b_preferred {
                Ordering::Less
            } else if !a_preferred && b_preferred {
                Ordering::Greater
            } else if spec_cmp_chars(da.subject, db.subject) != Ordering::Equal {
                spec_cmp_chars(da.subject, db.subject)
            } else {
                spec_cmp_chars(da.object, db.object)
            }
        },
        (SetView::Defined { .. }, _) => Ordering::Less,
        (_, SetView::Defined { .. }) => Ordering::Greater,
        (SetView::Any, SetView::NoPronouns) => Ordering::Less,
        (SetView::NoPronouns, SetView::Any) => Ordering::Greater,
        _ => Ordering::Equal,
    }
}

/// Whether `tags` holds the given tag.
pub(crate) fn tags_contain(tags: &Vec<PronounTag>, t: PronounTag) -> (r: bool)
    ensures
        r == tags@.contains(t),
{
    let mut i: usize = 0;
    while i < tags.len()
        invariant
            i <= tags@.len(),
            forall|j: int| 0 <= j < i ==> tags@[j] != t,
        decreases tags@.len() - i,
    {
        if tags[i] == t {
            return true;
        }
        i += 1;
    }
    false
}

/// Lexicographic string comparison by code point.
fn cmp_str(a: &str, b: &str) -> (r: Ordering)
    ensures
        r == spec_cmp_chars(a@, b@),
{
    let a_len = a.unicode_len();
    let b_len = b.unicode_len();
    let mut i: usize = 0;
    proof {
        assert(a@.skip(0) =~= a@);
        assert(b@.skip(0) =~= b@);
    }
    loop
        invariant
            a_len == a@.len(),
            b_len == b@.len(),
            i <= a_len,
            i <= b_len,
            spec_cmp_chars(a@, b@) == spec_cmp_chars(a@.skip(i as int), b@.skip(i as int)),
        decreases a_len - i,
    {
        if i == a_len || i == b_len {
            if a_len == b_len {
                return Ordering::Equal;
            } else if i == a_len {
                return Ordering::Less;
            } else {
                return Ordering::Greater;
            }
        }
        let ca = a.get_char(i) as u32;
        let cb = b.get_char(i) as u32;
        proof {
            assert(a@.skip(i as int)[0] == a@[i as int]);
            assert(b@.skip(i as int)[0] == b@[i as int]);
        }
        if ca < cb {
            return Ordering::Less;
        }
        if cb < ca {
            return Ordering::Greater;
        }
        proof {
            assert(a@.skip(i as int).drop_first() =~= a@.skip(i as int + 1));
            assert(b@.skip(i as int).drop_first() =~= b@.skip(i as int + 1));
        }
        i += 1;
    }
}

impl PronounSet {
    /// Rank two sets by the total order of [`spec_cmp_set`]: preferred
    /// definitions first, then other definitions by subject and object,
    /// then `*`, then `!`.
    pub fn compare(&self, other: &PronounSet) -> (r: Ordering)
        ensures
            r == spec_cmp_set(self@, other@),
    {
        match (self, other) {
            (
                PronounSet::Defined { definition: da, tags: ta },
                PronounSet::Defined { definition: db, tags: tb },
            ) => {
                let a_preferred = tags_contain(ta, PronounTag::Preferred);
                let b_preferred = tags_contain(tb, PronounTag::Preferred);
                if a_preferred && !b_preferred {
                    Ordering::Less
                } else if !a_preferred && b_preferred {
                    Ordering::Greater
                } else {
                    let subject_order = cmp_str(da.subject(), db.subject());
                    match subject_order {
                        Ordering::Equal => cmp_str(da.object(), db.object()),
                        _ => subject_order,
                    }
                }
            },
            (PronounSet::Defined { .. }, _) => Ordering::Less,
            (_, PronounSet::Defined { .. }) => Ordering::Greater,
            (PronounSet::Any, PronounSet::NoPronouns) => Ordering::Less,
            (PronounSet::NoPronouns, PronounSet::Any) => Ordering::Greater,
            _ => Ordering::Equal,
        }
    }
}

// ---------------------------------------------------------------------------
// Canonical serialization
// ---------------------------------------------------------------------------

/// The `; tag` suffixes for a tag sequence, in stored order.
pub open spec fn spec_tags_str(tags: Seq<PronounTag>) -> Seq<char>
    decreases tags.len(),
{
    if tags.len() == 0 {
        Seq::empty()
    } else {
        "; "@ + spec_tag_str(tags[0]) + spec_tags_str(tags.drop_first())
    }
}

/// The `/field` suffix of an optional definition field: present only for an
/// explicitly stored field, never re-derived from the canonical family.
pub open spec fn spec_opt_field_str(f: Option<Seq<char>>) -> Seq<char> {
    match f {
        Some(s) => "/"@ + s,
        None => Seq::empty(),
    }
}

/// The canonical text of a definition: `subject/object`, then each stored
/// optional field, in order.
pub open spec fn spec_def_str(d: DefView) -> Seq<char> {
    d.subject + "/"@ + d.object + spec_opt_field_str(d.possessive_determiner)
        + spec_opt_field_str(d.possessive_pronoun) + spec_opt_field_str(d.reflexive)
}

/// The canonical text of a pronoun set.
pub open spec fn spec_set_str(s: SetView) -> Seq<char> {
    match s {
        SetView::Defined { definition: d, tags } => spec_def_str(d) + spec_tags_str(tags),
        SetView::Any => "*"@,
        SetView::NoPronouns => "!"@,
    }
}

/// The canonical text of a whole record: the set, then ` # comment` when a
/// comment is present; a comment-only record renders `# comment`.
pub open spec fn spec_record_str(r: RecordView) -> Seq<char> {
    match (r.set, r.comment) {
        (Some(s), Some(c)) => spec_set_str(s) + " # "@ + c,
        (Some(s), None) => spec_set_str(s),
        (None, Some(c)) => "# "@ + c,
        (None, None) => Seq::empty(),
    }
}

/// Appending one tag extends the tag text by one `; tag` suffix.
proof fn lemma_tags_str_push(tags: Seq<PronounTag>, t: PronounTag)
    ensures
        spec_tags_str(tags.push(t)) == spec_tags_str(tags) + "; "@ + spec_tag_str(t),
    decreases tags.len(),
{
    if tags.len() == 0 {
        assert(tags.push(t)[0] == t);
        assert(tags.push(t).drop_first() =~= Seq::<PronounTag>::empty());
        assert(spec_tags_str(tags.push(t).drop_first()) == Seq::<char>::empty());
        assert(spec_tags_str(tags.push(t)) == "; "@ + spec_tag_str(t) + Seq::<char>::empty());
        assert(spec_tags_str(tags.push(t)) =~= spec_tags_str(tags) + "; "@ + spec_tag_str(t));
    } else {
        lemma_tags_str_push(tags.drop_first(), t);
        assert(tags.push(t)[0] == tags[0]);
        assert(tags.push(t).drop_first() =~= tags.drop_first().push(t));
        assert(spec_tags_str(tags.push(t)) =~= spec_tags_str(tags) + "; "@ + spec_tag_str(t));
    }
}

impl PronounSet {
    /// The canonical record text of this set.
    pub fn to_string(&self) -> (r: String)
        ensures
            r@ == spec_set_str(self@),
    {
        match self {
            PronounSet::Defined { definition, tags } => {
                let mut out = String::from_str(definition.subject());
                out.append("/");
                out.append(definition.object());
                if let Some(pd) = &definition.possessive_determiner {
                    out.append("/");
                    out.append(pd.as_str());
                }
                if let Some(pp) = &definition.possessive_pronoun {
                    out.append("/");
                    out.append(pp.as_str());
                }
                if let Some(rf) = &definition.reflexive {
                    out.append("/");
                    out.append(rf.as_str());
                }
                proof {
                    assert(out@ =~= spec_def_str(definition@));
                    assert(out@ =~= spec_def_str(definition@) + spec_tags_str(tags@.take(0)));
                }
                let mut k: usize = 0;
                while k < tags.len()
                    invariant
                        k <= tags@.len(),
                        out@ == spec_def_str(definition@) + spec_tags_str(tags@.take(k as int)),
                    decreases tags@.len() - k,
                {
                    out.append("; ");
                    out.append(tags[k].as_str());
                    proof {
                        lemma_tags_str_push(tags@.take(k as int), tags@[k as int]);
                        assert(tags@.take(k as int).push(tags@[k as int]) =~= tags@.take(
                            k as int + 1,
                        ));
                        assert(out@ =~= spec_def_str(definition@) + spec_tags_str(
                            tags@.take(k as int + 1),
                        ));
                    }
                    k += 1;
                }
                proof {
                    assert(tags@.take(tags@.len() as int) =~= tags@);
                }
                out
            },
            PronounSet::Any => String::from_str("*"),
            PronounSet::NoPronouns => String::from_str("!"),
        }
    }
}

impl PronounRecord {
    /// The canonical record text: set, then ` # comment` when both are
    /// present; `# comment` alone for a comment-only record.
    pub fn to_string(&self) -> (r: String)
        ensures
            r@ == spec_record_str(self@),
    {
        match (&self.set, &self.comment) {
            (Some(s), Some(c)) => {
                let mut out = s.to_string();
                out.append(" # ");
                out.append(c.as_str());
                out
            },
            (Some(s), None) => s.to_string(),
            (None, Some(c)) => {
                let mut out = String::from_str("# ");
                out.append(c.as_str());
                out
            },
            (None, None) => String::new(),
        }
    }
}

} // verus!
