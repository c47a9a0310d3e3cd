//! The single-pass scanner for pronoun record lines.
//!
//! [`parse_record`] consumes one line of text and produces a
//! [`PronounRecord`] or a [`ParserError`] that classifies exactly why the
//! line was rejected.  The grammar itself is stated by [`spec_parse`], a
//! functional description of the same single-pass scan over the line's
//! characters; the executable scanner is proved to return exactly what
//! [`spec_parse`] says, success and error alike.

use vstd::prelude::*;

use crate::pronouns::spec_guess_common;
use crate::pronouns::spec_tag_of;
use crate::pronouns::tags_contain;
use crate::pronouns::DefView;
use crate::pronouns::PronounRecord;
use crate::pronouns::PronounSet;
use crate::pronouns::PronounTag;
use crate::pronouns::RecordView;
use crate::pronouns::SetView;
use crate::text::chars_to_string;
use crate::text::is_alphanumeric_char;
use crate::text::is_whitespace_char;
use crate::text::lower_of;
use crate::text::spec_is_alphanumeric;
use crate::text::spec_is_whitespace;
use crate::text::str_to_chars;
use crate::text::to_lowercase_str;

verus! {

/// The exhaustive, mutually exclusive classification of rejected lines.
#[derive(Debug, Clone, Copy, PartialEq, Eq, Structural)]
pub enum ParserError {
    /// A pronoun definition with fewer than the two mandatory fields, or a
    /// tag separator before any pronoun set.
    NotEnoughPronounParts,
    /// A sixth definition field was started.
    TooManyPronounParts,
    /// Unrecognized tag text after a `;` separator.
    InvalidTag,
    /// A `/` with no definition field following it.
    TrailingSlash,
    /// A record without content: neither a pronoun set nor a comment.
    Empty,
    /// A `;` tag separator against the wildcard or "no pronouns" markers,
    /// which cannot carry tags.
    TagsNotAllowed,
    /// Catch-all for malformed tokens: a stray leading `/`, an empty field
    /// between slashes, or trailing characters after the record closed.
    InvalidFormat,
}

// ---------------------------------------------------------------------------
// Scanning positions
// ---------------------------------------------------------------------------

/// The position after the maximal run of whitespace starting at `i`.
pub open spec fn spec_skip_ws(s: Seq<char>, i: int) -> int
    decreases s.len() - i,
{
    if 0 <= i < s.len() && spec_is_whitespace(s[i]) {
        spec_skip_ws(s, i + 1)
    } else {
        i
    }
}

/// The position after the maximal run of `;` starting at `i`.
pub open spec fn spec_skip_semicolons(s: Seq<char>, i: int) -> int
    decreases s.len() - i,
{
    if 0 <= i < s.len() && s[i] == ';' {
        spec_skip_semicolons(s, i + 1)
    } else {
        i
    }
}

/// The end of the maximal alphanumeric run starting at `i`: the extent of
/// one definition field token.
pub open spec fn spec_alnum_end(s: Seq<char>, i: int) -> int
    decreases s.len() - i,
{
    if 0 <= i < s.len() && spec_is_alphanumeric(s[i]) {
        spec_alnum_end(s, i + 1)
    } else {
        i
    }
}

/// Whether `c` may stand inside a tag token: anything up to the next `;`,
/// `#` or whitespace.
pub open spec fn spec_is_tag_char(c: char) -> bool {
    c != ';' && c != '#' && !spec_is_whitespace(c)
}

/// The end of the maximal tag-token run starting at `i`.
pub open spec fn spec_tag_end(s: Seq<char>, i: int) -> int
    decreases s.len() - i,
{
    if 0 <= i < s.len() && spec_is_tag_char(s[i]) {
        spec_tag_end(s, i + 1)
    } else {
        i
    }
}

/// The text with its trailing whitespace removed.
pub open spec fn spec_trim_end(s: Seq<char>) -> Seq<char>
    decreases s.len(),
{
    if s.len() > 0 && spec_is_whitespace(s[s.len() - 1]) {
        spec_trim_end(s.drop_last())
    } else {
        s
    }
}

/// Bounds of [`spec_skip_ws`]: it stays within the text and moves only over
/// whitespace.
pub proof fn lemma_skip_ws_props(s: Seq<char>, i: int)
    requires
        0 <= i <= s.len(),
    ensures
        i <= spec_skip_ws(s, i) <= s.len(),
        forall|j: int| i <= j < spec_skip_ws(s, i) ==> spec_is_whitespace(s[j]),
        spec_skip_ws(s, i) < s.len() ==> !spec_is_whitespace(s[spec_skip_ws(s, i)]),
        i < s.len() && spec_is_whitespace(s[i]) ==> spec_skip_ws(s, i) >= i + 1,
    decreases s.len() - i,
{
    if i < s.len() && spec_is_whitespace(s[i]) {
        lemma_skip_ws_props(s, i + 1);
    }
}

/// Bounds of [`spec_skip_semicolons`].
pub proof fn lemma_skip_semicolons_props(s: Seq<char>, i: int)
    requires
        0 <= i <= s.len(),
    ensures
        i <= spec_skip_semicolons(s, i) <= s.len(),
        forall|j: int| i <= j < spec_skip_semicolons(s, i) ==> s[j] == ';',
        spec_skip_semicolons(s, i) < s.len() ==> s[spec_skip_semicolons(s, i)] != ';',
        i < s.len() && s[i] == ';' ==> spec_skip_semicolons(s, i) >= i + 1,
    decreases s.len() - i,
{
    if i < s.len() && s[i] == ';' {
        lemma_skip_semicolons_props(s, i + 1);
    }
}

/// Bounds of [`spec_alnum_end`].
pub proof fn lemma_alnum_end_props(s: Seq<char>, i: int)
    requires
        0 <= i <= s.len(),
    ensures
        i <= spec_alnum_end(s, i) <= s.len(),
        forall|j: int| i <= j < spec_alnum_end(s, i) ==> spec_is_alphanumeric(s[j]),
        spec_alnum_end(s, i) < s.len() ==> !spec_is_alphanumeric(s[spec_alnum_end(s, i)]),
    decreases s.len() - i,
{
    if i < s.len() && spec_is_alphanumeric(s[i]) {
        lemma_alnum_end_props(s, i + 1);
    }
}

/// Bounds of [`spec_tag_end`].
pub proof fn lemma_tag_end_props(s: Seq<char>, i: int)
    requires
        0 <= i <= s.len(),
    ensures
        i <= spec_tag_end(s, i) <= s.len(),
        forall|j: int| i <= j < spec_tag_end(s, i) ==> spec_is_tag_char(s[j]),
        spec_tag_end(s, i) < s.len() ==> !spec_is_tag_char(s[spec_tag_end(s, i)]),
    decreases s.len() - i,
{
    if i < s.len() && spec_is_tag_char(s[i]) {
        lemma_tag_end_props(s, i + 1);
    }
}

// ---------------------------------------------------------------------------
// The grammar as a functional scan
// ---------------------------------------------------------------------------

/// The scanner's phase: accumulating slash-separated definition fields
/// (`n` is the index of the next field slot, `trailing_slash` marks that a
/// `/` was just consumed so a field must still follow), or reading tags
/// after the field sequence closed.
pub ghost enum ScanPhase {
    Fields { n: int, trailing_slash: bool },
    Tags,
}

/// The pronoun set under construction: a partial definition, or one of the
/// two markers `*` and `!`.
pub ghost enum BuildView {
    BuildDef {
        subject: Seq<char>,
        object: Seq<char>,
        possessive_determiner: Option<Seq<char>>,
        possessive_pronoun: Option<Seq<char>>,
        reflexive: Option<Seq<char>>,
        tags: Seq<PronounTag>,
    },
    BuildAny,
    BuildNone,
}

/// A definition builder with nothing filled in yet.
pub open spec fn spec_empty_build() -> BuildView {
    BuildView::BuildDef {
        subject: Seq::empty(),
        object: Seq::empty(),
        possessive_determiner: None,
        possessive_pronoun: None,
        reflexive: None,
        tags: Seq::empty(),
    }
}

/// Assign field slot `n` of the builder (starting one if none exists):
/// 0 subject, 1 object, 2 possessive determiner, 3 possessive pronoun,
/// 4 reflexive.
pub open spec fn spec_put_field(b: Option<BuildView>, n: int, tok: Seq<char>) -> BuildView {
    let cur = match b {
        Some(x) => x,
        None => spec_empty_build(),
    };
    match cur {
        BuildView::BuildDef {
            subject,
            object,
            possessive_determiner,
            possessive_pronoun,
            reflexive,
            tags,
        } => {
            if n == 0 {
                BuildView::BuildDef {
                    subject: tok,
                    object,
                    possessive_determiner,
                    possessive_pronoun,
                    reflexive,
                    tags,
                }
            } else if n == 1 {
                BuildView::BuildDef {
                    subject,
                    object: tok,
                    possessive_determiner,
                    possessive_pronoun,
                    reflexive,
                    tags,
                }
            } else if n == 2 {
                BuildView::BuildDef {
                    subject,
                    object,
                    possessive_determiner: Some(tok),
                    possessive_pronoun,
                    reflexive,
                    tags,
                }
            } else if n == 3 {
                BuildView::BuildDef {
                    subject,
                    object,
                    possessive_determiner,
                    possessive_pronoun: Some(tok),
                    reflexive,
                    tags,
                }
            } else {
                BuildView::BuildDef {
                    subject,
                    object,
                    possessive_determiner,
                    possessive_pronoun,
                    reflexive: Some(tok),
                    tags,
                }
            }
        },
        _ => cur,
    }
}

/// Append a recognized tag, unless it is already present: tags deduplicate
/// on first occurrence and keep insertion order.
pub open spec fn spec_push_tag(b: BuildView, t: PronounTag) -> BuildView {
    match b {
        BuildView::BuildDef {
            subject,
            object,
            possessive_determiner,
            possessive_pronoun,
            reflexive,
            tags,
        } => BuildView::BuildDef {
            subject,
            object,
            possessive_determiner,
            possessive_pronoun,
            reflexive,
            tags: if tags.contains(t) {
                tags
            } else {
                tags.push(t)
            },
        },
        _ => b,
    }
}

/// The finished set of a builder; a completed definition derives its
/// canonical family here.
pub open spec fn spec_build_set(b: BuildView) -> SetView {
    match b {
        BuildView::BuildDef {
            subject,
            object,
            possessive_determiner,
            possessive_pronoun,
            reflexive,
            tags,
        } => SetView::Defined {
            definition: DefView {
                subject,
                object,
                possessive_determiner,
                possessive_pronoun,
                reflexive,
                common_def: spec_guess_common(
                    subject,
                    object,
                    possessive_determiner,
                    possessive_pronoun,
                    reflexive,
                ),
            },
            tags,
        },
        BuildView::BuildAny => SetView::Any,
        BuildView::BuildNone => SetView::NoPronouns,
    }
}

/// Build the record once scanning is done: a record with neither set nor
/// comment is `Empty`, and a definition whose subject or object is still
/// empty lacks its mandatory fields.
pub open spec fn spec_complete(b: Option<BuildView>, comment: Option<Seq<char>>) -> Result<
    RecordView,
    ParserError,
> {
    match b {
        None => match comment {
            None => Err(ParserError::Empty),
            Some(c) => Ok(RecordView { set: None, comment: Some(c) }),
        },
        Some(bv) => match bv {
            BuildView::BuildDef { subject, object, .. } => {
                if subject.len() == 0 || object.len() == 0 {
                    Err(ParserError::NotEnoughPronounParts)
                } else {
                    Ok(RecordView { set: Some(spec_build_set(bv)), comment })
                }
            },
            _ => Ok(RecordView { set: Some(spec_build_set(bv)), comment }),
        },
    }
}

/// End-of-scan validation.  When the scan ended while still accumulating
/// fields, a pending trailing slash fails first, then a started definition
/// with fewer than the two mandatory fields; ending after tags or after a
/// comment has nothing left to check.
pub open spec fn spec_finalize(
    b: Option<BuildView>,
    comment: Option<Seq<char>>,
    phase: ScanPhase,
) -> Result<RecordView, ParserError> {
    match phase {
        ScanPhase::Fields { n, trailing_slash } => {
            if trailing_slash {
                Err(ParserError::TrailingSlash)
            } else if b is Some && n < 2 {
                Err(ParserError::NotEnoughPronounParts)
            } else {
                spec_complete(b, comment)
            }
        },
        ScanPhase::Tags => spec_complete(b, comment),
    }
}

/// One step of the scan at position `i`, as a functional description of the
/// whole remaining parse.
///
/// - `;` closes the field sequence (at least two fields, no pending slash)
///   and reads one lowercased tag token after collapsing any run of `;`;
///   tags are only legal against a definition.
/// - `#` starts the comment: the rest of the line, leading whitespace
///   skipped and trailing whitespace trimmed, and the scan ends.
/// - While accumulating fields, `*` and `!` select the wildcard or
///   "no pronouns" marker, and an alphanumeric run is the next field,
///   lowercased; a following `/` keeps the scan in the field phase with a
///   pending slash.  Anything else after the fields closed is trailing
///   garbage.
pub open spec fn spec_scan(
    s: Seq<char>,
    i: int,
    phase: ScanPhase,
    b: Option<BuildView>,
) -> Result<RecordView, ParserError>
    decreases s.len() - i,
{
    if !(0 <= i < s.len()) {
        spec_finalize(b, None, phase)
    } else if s[i] == ';' {
        let phase_err = match phase {
            ScanPhase::Fields { n, trailing_slash } => {
                if trailing_slash {
                    Some(ParserError::TrailingSlash)
                } else if n < 2 {
                    Some(ParserError::NotEnoughPronounParts)
                } else {
                    None
                }
            },
            ScanPhase::Tags => None,
        };
        match phase_err {
            Some(e) => Err(e),
            None => match b {
                None => Err(ParserError::NotEnoughPronounParts),
                Some(BuildView::BuildAny) => Err(ParserError::TagsNotAllowed),
                Some(BuildView::BuildNone) => Err(ParserError::TagsNotAllowed),
                Some(bv) => {
                    let j = spec_skip_ws(s, spec_skip_semicolons(s, i));
                    let e = spec_tag_end(s, j);
                    match spec_tag_of(lower_of(s.subrange(j, e))) {
                        None => Err(ParserError::InvalidTag),
                        Some(t) => {
                            proof {
                                lemma_skip_semicolons_props(s, i);
                                lemma_skip_ws_props(s, spec_skip_semicolons(s, i));
                                lemma_tag_end_props(s, j);
                                lemma_skip_ws_props(s, e);
                            }
                            spec_scan(s, spec_skip_ws(s, e), ScanPhase::Tags, Some(spec_push_tag(bv, t)))
                        },
                    }
                },
            },
        }
    } else if s[i] == '#' {
        let trailing = match phase {
            ScanPhase::Fields { n, trailing_slash } => trailing_slash,
            ScanPhase::Tags => false,
        };
        if trailing {
            Err(ParserError::TrailingSlash)
        } else {
            proof {
                lemma_skip_ws_props(s, i + 1);
            }
            let j = spec_skip_ws(s, i + 1);
            let comment = spec_trim_end(s.subrange(j, s.len() as int));
            spec_finalize(b, Some(comment), ScanPhase::Tags)
        }
    } else {
        match phase {
            ScanPhase::Fields { n, trailing_slash } => {
                if s[i] == '*' || s[i] == '!' {
                    if trailing_slash {
                        Err(ParserError::TrailingSlash)
                    } else {
                        let mark = if s[i] == '*' {
                            BuildView::BuildAny
                        } else {
                            BuildView::BuildNone
                        };
                        proof {
                            lemma_skip_ws_props(s, i + 1);
                        }
                        spec_scan(s, spec_skip_ws(s, i + 1), ScanPhase::Tags, Some(mark))
                    }
                } else {
                    let e = spec_alnum_end(s, i);
                    if e == i {
                        Err(ParserError::InvalidFormat)
                    } else if b is Some && (b->0 is BuildAny || b->0 is BuildNone) {
                        Err(ParserError::TooManyPronounParts)
                    } else if !(0 <= n <= 4) {
                        Err(ParserError::TooManyPronounParts)
                    } else {
                        let tok = lower_of(s.subrange(i, e));
                        let b2 = spec_put_field(b, n, tok);
                        proof {
                            lemma_alnum_end_props(s, i);
                            lemma_skip_ws_props(s, e);
                        }
                        let j = spec_skip_ws(s, e);
                        if j < s.len() && s[j] == '/' {
                            proof {
                                lemma_skip_ws_props(s, j + 1);
                            }
                            spec_scan(
                                s,
                                spec_skip_ws(s, j + 1),
                                ScanPhase::Fields { n: n + 1, trailing_slash: true },
                                Some(b2),
                            )
                        } else {
                            spec_scan(s, j, ScanPhase::Tags, Some(b2))
                        }
                    }
                }
            },
            ScanPhase::Tags => Err(ParserError::InvalidFormat),
        }
    }
}

/// The parse of one whole line: leading whitespace is skipped, then the
/// scan runs from the start in the field phase with nothing built.
pub open spec fn spec_parse(s: Seq<char>) -> Result<RecordView, ParserError> {
    spec_scan(s, spec_skip_ws(s, 0), ScanPhase::Fields { n: 0, trailing_slash: false }, None)
}

// ---------------------------------------------------------------------------
// The executable scanner
// ---------------------------------------------------------------------------

/// A peek-one cursor over the characters of one input line.
struct ParseStream {
    chars: Vec<char>,
    pos: usize,
}

impl ParseStream {
    spec fn wf(&self) -> bool {
        self.pos <= self.chars@.len()
    }

    fn new(input: &str) -> (r: ParseStream)
        ensures
            r.chars@ == input@,
            r.pos == 0,
    {
        ParseStream { chars: str_to_chars(input), pos: 0 }
    }

    fn peek(&self) -> (r: Option<char>)
        requires
            self.wf(),
        ensures
            r == (if self.pos < self.chars@.len() {
                Some(self.chars@[self.pos as int])
            } else {
                None::<char>
            }),
    {
        if self.pos < self.chars.len() {
            Some(self.chars[self.pos])
        } else {
            None
        }
    }

    fn next(&mut self) -> (r: Option<char>)
        requires
            old(self).wf(),
        ensures
            final(self).chars@ == old(self).chars@,
            final(self).wf(),
            old(self).pos < old(self).chars@.len() ==> r == Some(
                old(self).chars@[old(self).pos as int],
            ) && final(self).pos == old(self).pos + 1,
            old(self).pos >= old(self).chars@.len() ==> r == None::<char> && final(self).pos
                == old(self).pos,
    {
        if self.pos < self.chars.len() {
            let c = self.chars[self.pos];
            self.pos = self.pos + 1;
            Some(c)
        } else {
            None
        }
    }

    /// Advance over whitespace.
    fn skip_whitespace(&mut self)
        requires
            old(self).wf(),
        ensures
            final(self).chars@ == old(self).chars@,
            final(self).pos == spec_skip_ws(old(self).chars@, old(self).pos as int),
            final(self).wf(),
            old(self).pos <= final(self).pos,
    {
        let ghost s = self.chars@;
        let ghost p0 = self.pos as int;
        while self.pos < self.chars.len() && is_whitespace_char(self.chars[self.pos])
            invariant
                self.chars@ == s,
                0 <= p0 <= self.pos <= s.len(),
                spec_skip_ws(s, p0) == spec_skip_ws(s, self.pos as int),
            decreases s.len() - self.pos,
        {
            self.pos = self.pos + 1;
        }
    }

    /// Advance over a run of `;`.
    fn skip_semicolons(&mut self)
        requires
            old(self).wf(),
        ensures
            final(self).chars@ == old(self).chars@,
            final(self).pos == spec_skip_semicolons(old(self).chars@, old(self).pos as int),
            final(self).wf(),
            old(self).pos <= final(self).pos,
    {
        let ghost s = self.chars@;
        let ghost p0 = self.pos as int;
        while self.pos < self.chars.len() && self.chars[self.pos] == ';'
            invariant
                self.chars@ == s,
                0 <= p0 <= self.pos <= s.len(),
                spec_skip_semicolons(s, p0) == spec_skip_semicolons(s, self.pos as int),
            decreases s.len() - self.pos,
        {
            self.pos = self.pos + 1;
        }
    }

    /// Take the maximal alphanumeric run at the cursor: one field token.
    fn take_alphanumeric(&mut self) -> (r: Vec<char>)
        requires
            old(self).wf(),
        ensures
            final(self).chars@ == old(self).chars@,
            final(self).pos == spec_alnum_end(old(self).chars@, old(self).pos as int),
            r@ == old(self).chars@.subrange(old(self).pos as int, final(self).pos as int),
            final(self).wf(),
            old(self).pos <= final(self).pos,
    {
        let ghost s = self.chars@;
        let ghost p0 = self.pos as int;
        let mut out: Vec<char> = Vec::new();
        while self.pos < self.chars.len() && is_alphanumeric_char(self.chars[self.pos])
            invariant
                self.chars@ == s,
                0 <= p0 <= self.pos <= s.len(),
                spec_alnum_end(s, p0) == spec_alnum_end(s, self.pos as int),
                out@ == s.subrange(p0, self.pos as int),
            decreases s.len() - self.pos,
        {
            out.push(self.chars[self.pos]);
            proof {
                assert(out@ =~= s.subrange(p0, self.pos as int + 1));
            }
            self.pos = self.pos + 1;
        }
        out
    }

    /// Take the maximal tag-token run at the cursor: everything up to the
    /// next `;`, `#` or whitespace.
    fn take_tag_text(&mut self) -> (r: Vec<char>)
        requires
            old(self).wf(),
        ensures
            final(self).chars@ == old(self).chars@,
            final(self).pos == spec_tag_end(old(self).chars@, old(self).pos as int),
            r@ == old(self).chars@.subrange(old(self).pos as int, final(self).pos as int),
            final(self).wf(),
            old(self).pos <= final(self).pos,
    {
        let ghost s = self.chars@;
        let ghost p0 = self.pos as int;
        let mut out: Vec<char> = Vec::new();
        while self.pos < self.chars.len() && is_tag_char(self.chars[self.pos])
            invariant
                self.chars@ == s,
                0 <= p0 <= self.pos <= s.len(),
                spec_tag_end(s, p0) == spec_tag_end(s, self.pos as int),
                out@ == s.subrange(p0, self.pos as int),
            decreases s.len() - self.pos,
        {
            out.push(self.chars[self.pos]);
            proof {
                assert(out@ =~= s.subrange(p0, self.pos as int + 1));
            }
            self.pos = self.pos + 1;
        }
        out
    }

    /// Take everything left on the line.
    fn collect_remaining(&mut self) -> (r: Vec<char>)
        requires
            old(self).wf(),
        ensures
            final(self).chars@ == old(self).chars@,
            final(self).pos == old(self).chars@.len(),
            r@ == old(self).chars@.subrange(old(self).pos as int, old(self).chars@.len() as int),
    {
        let ghost s = self.chars@;
        let ghost p0 = self.pos as int;
        let mut out: Vec<char> = Vec::new();
        while self.pos < self.chars.len()
            invariant
                self.chars@ == s,
                0 <= p0 <= self.pos <= s.len(),
                out@ == s.subrange(p0, self.pos as int),
            decreases s.len() - self.pos,
        {
            out.push(self.chars[self.pos]);
            proof {
                assert(out@ =~= s.subrange(p0, self.pos as int + 1));
            }
            self.pos = self.pos + 1;
        }
        out
    }
}

/// Whether `c` may stand inside a tag token.
fn is_tag_char(c: char) -> (r: bool)
    ensures
        r == spec_is_tag_char(c),
{
    if c == ';' || c == '#' {
        false
    } else {
        !is_whitespace_char(c)
    }
}

/// Remove trailing whitespace in place.
fn trim_end_chars(v: &mut Vec<char>)
    ensures
        final(v)@ == spec_trim_end(old(v)@),
{
    let ghost v0 = v@;
    while v.len() > 0 && is_whitespace_char(v[v.len() - 1])
        invariant
            spec_trim_end(v0) == spec_trim_end(v@),
        decreases v@.len(),
    {
        let ghost before = v@;
        let _ = v.pop();
        proof {
            assert(v@ =~= before.drop_last());
            assert(spec_trim_end(before) == spec_trim_end(v@));
        }
    }
}

/// Which kind of pronoun set the scan has started, if any.
#[derive(Clone, Copy, PartialEq, Eq, Structural)]
enum SetKind {
    NoneYet,
    DefKind,
    AnyKind,
    NoneKind,
}

/// The fields of a definition under construction.
struct DefBuilder {
    subject: String,
    object: String,
    possessive_determiner: Option<String>,
    possessive_pronoun: Option<String>,
    reflexive: Option<String>,
    tags: Vec<PronounTag>,
}

/// The builder state as the spec scanner sees it.
spec fn builder_view(kind: SetKind, def: DefBuilder) -> Option<BuildView> {
    match kind {
        SetKind::NoneYet => None,
        SetKind::DefKind => Some(
            BuildView::BuildDef {
                subject: def.subject@,
                object: def.object@,
                possessive_determiner: def.possessive_determiner.deep_view(),
                possessive_pronoun: def.possessive_pronoun.deep_view(),
                reflexive: def.reflexive.deep_view(),
                tags: def.tags@,
            },
        ),
        SetKind::AnyKind => Some(BuildView::BuildAny),
        SetKind::NoneKind => Some(BuildView::BuildNone),
    }
}

/// The view of an executable parse result.
pub open spec fn result_view(r: Result<PronounRecord, ParserError>) -> Result<
    RecordView,
    ParserError,
> {
    match r {
        Ok(rec) => Ok(rec@),
        Err(e) => Err(e),
    }
}

/// End-of-scan validation and record construction, mirroring
/// [`spec_finalize`].  `in_fields` says the scan ended while still
/// accumulating fields (with slot index `n` and the pending-slash flag);
/// the comment path and the tag phase pass `false`.
fn finish(
    kind: SetKind,
    def: DefBuilder,
    comment: Option<String>,
    in_fields: bool,
    n: u8,
    trailing: bool,
) -> (r: Result<PronounRecord, ParserError>)
    ensures
        result_view(r) == spec_finalize(
            builder_view(kind, def),
            comment.deep_view(),
            if in_fields {
                ScanPhase::Fields { n: n as int, trailing_slash: trailing }
            } else {
                ScanPhase::Tags
            },
        ),
{
    if in_fields {
        if trailing {
            return Err(ParserError::TrailingSlash);
        }
        if !matches!(kind, SetKind::NoneYet) && n < 2 {
            return Err(ParserError::NotEnoughPronounParts);
        }
    }
    match kind {
        SetKind::NoneYet => match comment {
            None => Err(ParserError::Empty),
            Some(c) => Ok(PronounRecord { set: None, comment: Some(c) }),
        },
        SetKind::AnyKind => Ok(PronounRecord { set: Some(PronounSet::Any), comment }),
        SetKind::NoneKind => Ok(PronounRecord { set: Some(PronounSet::NoPronouns), comment }),
        SetKind::DefKind => {
            if def.subject.as_str().is_empty() || def.object.as_str().is_empty() {
                return Err(ParserError::NotEnoughPronounParts);
            }
            let set = PronounSet::new_defined(
                def.subject,
                def.object,
                def.possessive_determiner,
                def.possessive_pronoun,
                def.reflexive,
                def.tags,
            );
            Ok(PronounRecord { set: Some(set), comment })
        },
    }
}

/// Parse one record line.
///
/// The scan consumes the whole input or fails; the result, success and
/// error classification alike, is exactly what [`spec_parse`] assigns to
/// the input's characters.
pub fn parse_record(input: &str) -> (r: Result<PronounRecord, ParserError>)
    ensures
        result_view(r) == spec_parse(input@),
{
    let ghost s = input@;
    let mut stream = ParseStream::new(input);
    stream.skip_whitespace();

    let mut n: u8 = 0;
    let mut trailing = false;
    let mut in_tags = false;
    let mut kind = SetKind::NoneYet;
    let mut def = DefBuilder {
        subject: String::new(),
        object: String::new(),
        possessive_determiner: None,
        possessive_pronoun: None,
        reflexive: None,
        tags: Vec::new(),
    };

    while stream.pos < stream.chars.len()
        invariant
            s == input@,
            stream.wf(),
            stream.chars@ == s,
            n <= 5,
            spec_scan(
                s,
                stream.pos as int,
                if in_tags {
                    ScanPhase::Tags
                } else {
                    ScanPhase::Fields { n: n as int, trailing_slash: trailing }
                },
                builder_view(kind, def),
            ) == spec_parse(s),
            kind is NoneYet ==> builder_view(SetKind::DefKind, def) == Some(spec_empty_build()),
        decreases s.len() - stream.pos,
    {
        let ghost pos0 = stream.pos as int;
        let ghost phase0 = if in_tags {
            ScanPhase::Tags
        } else {
            ScanPhase::Fields { n: n as int, trailing_slash: trailing }
        };
        let ghost b0 = builder_view(kind, def);
        let c = stream.chars[stream.pos];

        if c == ';' {
            if !in_tags {
                if trailing {
                    return Err(ParserError::TrailingSlash);
                }
                if n < 2 {
                    return Err(ParserError::NotEnoughPronounParts);
                }
            }
            match kind {
                SetKind::NoneYet => {
                    return Err(ParserError::NotEnoughPronounParts);
                },
                SetKind::AnyKind => {
                    return Err(ParserError::TagsNotAllowed);
                },
                SetKind::NoneKind => {
                    return Err(ParserError::TagsNotAllowed);
                },
                SetKind::DefKind => {},
            }
            stream.skip_semicolons();
            stream.skip_whitespace();
            let ghost j = stream.pos as int;
            let tag_raw = stream.take_tag_text();
            let tag_text = to_lowercase_str(chars_to_string(&tag_raw).as_str());
            let tag = match PronounTag::from_string(tag_text) {
                None => {
                    return Err(ParserError::InvalidTag);
                },
                Some(t) => t,
            };
            if !tags_contain(&def.tags, tag) {
                def.tags.push(tag);
            }
            stream.skip_whitespace();
            in_tags = true;
            proof {
                lemma_skip_semicolons_props(s, pos0);
                lemma_skip_ws_props(s, spec_skip_semicolons(s, pos0));
                lemma_tag_end_props(s, j);
                assert(builder_view(kind, def) == Some(spec_push_tag(b0->0, tag)));
                assert(spec_scan(s, pos0, phase0, b0) == spec_scan(
                    s,
                    stream.pos as int,
                    ScanPhase::Tags,
                    builder_view(kind, def),
                ));
            }
        } else if c == '#' {
            if !in_tags && trailing {
                return Err(ParserError::TrailingSlash);
            }
            let _ = stream.next();
            stream.skip_whitespace();
            let ghost j = stream.pos as int;
            let mut rest = stream.collect_remaining();
            trim_end_chars(&mut rest);
            let comment = chars_to_string(&rest);
            proof {
                assert(spec_scan(s, pos0, phase0, b0) == spec_finalize(
                    b0,
                    Some(spec_trim_end(s.subrange(j, s.len() as int))),
                    ScanPhase::Tags,
                ));
            }
            return finish(kind, def, Some(comment), false, 0, false);
        } else if !in_tags {
            if c == '*' || c == '!' {
                if trailing {
                    return Err(ParserError::TrailingSlash);
                }
                kind = if c == '*' {
                    SetKind::AnyKind
                } else {
                    SetKind::NoneKind
                };
                in_tags = true;
                let _ = stream.next();
                stream.skip_whitespace();
                proof {
                    lemma_skip_ws_props(s, pos0 + 1);
                    assert(spec_scan(s, pos0, phase0, b0) == spec_scan(
                        s,
                        stream.pos as int,
                        ScanPhase::Tags,
                        builder_view(kind, def),
                    ));
                }
            } else {
                let part = stream.take_alphanumeric();
                let ghost e = stream.pos as int;
                if part.len() == 0 {
                    return Err(ParserError::InvalidFormat);
                }
                match kind {
                    SetKind::AnyKind => {
                        return Err(ParserError::TooManyPronounParts);
                    },
                    SetKind::NoneKind => {
                        return Err(ParserError::TooManyPronounParts);
                    },
                    _ => {},
                }
                if n > 4 {
                    return Err(ParserError::TooManyPronounParts);
                }
                let tok = to_lowercase_str(chars_to_string(&part).as_str());
                let ghost b_before = builder_view(kind, def);
                kind = SetKind::DefKind;
                if n == 0 {
                    def.subject = tok;
                } else if n == 1 {
                    def.object = tok;
                } else if n == 2 {
                    def.possessive_determiner = Some(tok);
                } else if n == 3 {
                    def.possessive_pronoun = Some(tok);
                } else {
                    def.reflexive = Some(tok);
                }
                proof {
                    lemma_alnum_end_props(s, pos0);
                    assert(builder_view(kind, def) == Some(
                        spec_put_field(b_before, n as int, lower_of(s.subrange(pos0, e))),
                    ));
                }
                stream.skip_whitespace();
                let ghost j = stream.pos as int;
                let slash = match stream.peek() {
                    Some(ch) => ch == '/',
                    None => false,
                };
                if slash {
                    let _ = stream.next();
                    stream.skip_whitespace();
                    n = n + 1;
                    trailing = true;
                    proof {
                        lemma_skip_ws_props(s, e);
                        lemma_skip_ws_props(s, j + 1);
                        assert(spec_scan(s, pos0, phase0, b0) == spec_scan(
                            s,
                            stream.pos as int,
                            ScanPhase::Fields { n: n as int, trailing_slash: true },
                            builder_view(kind, def),
                        ));
                    }
                } else {
                    in_tags = true;
                    proof {
                        lemma_skip_ws_props(s, e);
                        assert(spec_scan(s, pos0, phase0, b0) == spec_scan(
                            s,
                            stream.pos as int,
                            ScanPhase::Tags,
                            builder_view(kind, def),
                        ));
                    }
                }
            }
        } else {
            return Err(ParserError::InvalidFormat);
        }
    }

    proof {
        assert(spec_scan(
            s,
            stream.pos as int,
            if in_tags {
                ScanPhase::Tags
            } else {
                ScanPhase::Fields { n: n as int, trailing_slash: trailing }
            },
            builder_view(kind, def),
        ) == spec_finalize(
            builder_view(kind, def),
            None,
            if in_tags {
                ScanPhase::Tags
            } else {
                ScanPhase::Fields { n: n as int, trailing_slash: trailing }
            },
        ));
    }
    finish(kind, def, None, !in_tags, n, trailing)
}

} // verus!
