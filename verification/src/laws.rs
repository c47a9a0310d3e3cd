//! Laws of the parser and serializer, stated and proved over the crate's
//! specification functions.

use vstd::prelude::*;

use crate::parser::lemma_skip_semicolons_props;
use crate::parser::lemma_skip_ws_props;
use crate::parser::lemma_tag_end_props;
use crate::parser::spec_alnum_end;
use crate::parser::spec_is_tag_char;
use crate::parser::spec_parse;
use crate::parser::spec_push_tag;
use crate::parser::spec_scan;
use crate::parser::spec_skip_semicolons;
use crate::parser::spec_skip_ws;
use crate::parser::spec_tag_end;
use crate::parser::spec_trim_end;
use crate::parser::BuildView;
use crate::parser::ParserError;
use crate::parser::ScanPhase;
use crate::pronouns::spec_cmp_chars;
use crate::pronouns::PronounRecord;
use crate::pronouns::PronounSet;
use crate::pronouns::PronounTag;
use crate::pronouns::RecordView;
use crate::pronouns::SetView;
use crate::text::is_alphanumeric_char;
use crate::text::is_whitespace_char;
use crate::text::spec_is_alphanumeric;
use crate::text::spec_is_whitespace;
use crate::text::str_eq;
use crate::text::to_lowercase_str;

verus! {

broadcast use vstd::string::group_string_axioms;

/// The tag sequence of a builder state, where one exists.
pub open spec fn build_tags(b: Option<BuildView>) -> Seq<crate::pronouns::PronounTag> {
    match b {
        Some(BuildView::BuildDef { tags, .. }) => tags,
        _ => Seq::empty(),
    }
}

/// Through every step of the scan, the tags collected so far stay free of
/// duplicates: a recognized tag is appended only when not yet present.
proof fn lemma_scan_tags_distinct(
    s: Seq<char>,
    i: int,
    phase: ScanPhase,
    b: Option<BuildView>,
    r: RecordView,
)
    requires
        build_tags(b).no_duplicates(),
        spec_scan(s, i, phase, b) == Ok::<RecordView, ParserError>(r),
    ensures
        (match r.set {
            Some(SetView::Defined { tags, .. }) => tags.no_duplicates(),
            _ => true,
        }),
    decreases s.len() - i,
{
    if !(0 <= i < s.len()) {
        // finalization keeps the collected tags as they are
    } else if s[i] == ';' {
        match b {
            Some(BuildView::BuildDef { tags, .. }) => {
                let j = spec_skip_ws(s, spec_skip_semicolons(s, i));
                let e = spec_tag_end(s, j);
                match crate::pronouns::spec_tag_of(crate::text::lower_of(s.subrange(j, e))) {
                    Some(t) => {
                        let bv = b->0;
                        assert(build_tags(Some(spec_push_tag(bv, t))).no_duplicates());
                        proof_decreases_bounds(s, i);
                        lemma_scan_tags_distinct(
                            s,
                            spec_skip_ws(s, e),
                            ScanPhase::Tags,
                            Some(spec_push_tag(bv, t)),
                            r,
                        );
                    },
                    None => {},
                }
            },
            _ => {},
        }
    } else if s[i] == '#' {
        // the comment ends the scan; the collected tags are unchanged
    } else {
        match phase {
            ScanPhase::Fields { n, trailing_slash } => {
                if s[i] == '*' || s[i] == '!' {
                    if !trailing_slash {
                        let mark = if s[i] == '*' {
                            BuildView::BuildAny
                        } else {
                            BuildView::BuildNone
                        };
                        lemma_skip_ws_props(s, i + 1);
                        lemma_scan_tags_distinct(
                            s,
                            spec_skip_ws(s, i + 1),
                            ScanPhase::Tags,
                            Some(mark),
                            r,
                        );
                    }
                } else {
                    let e = spec_alnum_end(s, i);
                    if e != i && !(b is Some && (b->0 is BuildAny || b->0 is BuildNone)) && 0 <= n
                        <= 4 {
                        let tok = crate::text::lower_of(s.subrange(i, e));
                        let b2 = crate::parser::spec_put_field(b, n, tok);
                        crate::parser::lemma_alnum_end_props(s, i);
                        lemma_skip_ws_props(s, e);
                        let j = spec_skip_ws(s, e);
                        assert(build_tags(Some(b2)) == build_tags(b));
                        if j < s.len() && s[j] == '/' {
                            lemma_skip_ws_props(s, j + 1);
                            lemma_scan_tags_distinct(
                                s,
                                spec_skip_ws(s, j + 1),
                                ScanPhase::Fields { n: n + 1, trailing_slash: true },
                                Some(b2),
                                r,
                            );
                        } else {
                            lemma_scan_tags_distinct(s, j, ScanPhase::Tags, Some(b2), r);
                        }
                    }
                }
            },
            ScanPhase::Tags => {},
        }
    }
}

/// Position bounds used when the scan recurses past a tag.
proof fn proof_decreases_bounds(s: Seq<char>, i: int)
    requires
        0 <= i < s.len(),
        s[i] == ';',
    ensures
        i < spec_skip_ws(s, spec_tag_end(s, spec_skip_ws(s, spec_skip_semicolons(s, i)))) <= s.len(),
        spec_skip_ws(s, spec_tag_end(s, spec_skip_ws(s, spec_skip_semicolons(s, i))))
            >= spec_tag_end(s, spec_skip_ws(s, spec_skip_semicolons(s, i))),
{
    lemma_skip_semicolons_props(s, i);
    lemma_skip_ws_props(s, spec_skip_semicolons(s, i));
    lemma_tag_end_props(s, spec_skip_ws(s, spec_skip_semicolons(s, i)));
    lemma_skip_ws_props(s, spec_tag_end(s, spec_skip_ws(s, spec_skip_semicolons(s, i))));
}

/// Tags deduplicate on first occurrence: any successfully parsed record
/// carries each recognized tag at most once, whatever the input repeated.
pub proof fn lemma_parse_tags_distinct(s: Seq<char>, r: RecordView)
    requires
        spec_parse(s) == Ok::<RecordView, ParserError>(r),
    ensures
        (match r.set {
            Some(SetView::Defined { tags, .. }) => tags.no_duplicates(),
            _ => true,
        }),
{
    lemma_skip_ws_props(s, 0);
    lemma_scan_tags_distinct(
        s,
        spec_skip_ws(s, 0),
        ScanPhase::Fields { n: 0, trailing_slash: false },
        None,
        r,
    );
}

// ---------------------------------------------------------------------------
// The ranking order
// ---------------------------------------------------------------------------

/// The reverse of a comparison result.
pub open spec fn spec_ord_flip(o: core::cmp::Ordering) -> core::cmp::Ordering {
    match o {
        core::cmp::Ordering::Less => core::cmp::Ordering::Greater,
        core::cmp::Ordering::Equal => core::cmp::Ordering::Equal,
        core::cmp::Ordering::Greater => core::cmp::Ordering::Less,
    }
}

/// Swapping the arguments of the character comparison reverses its result.
proof fn lemma_cmp_chars_flip(a: Seq<char>, b: Seq<char>)
    ensures
        spec_cmp_chars(b, a) == spec_ord_flip(spec_cmp_chars(a, b)),
    decreases a.len() + b.len(),
{
    if a.len() > 0 && b.len() > 0 && (a[0] as u32) == (b[0] as u32) {
        lemma_cmp_chars_flip(a.drop_first(), b.drop_first());
    }
}

/// Equal code points are the same character.
proof fn lemma_char_cast_injective(x: char, y: char)
    requires
        x as u32 == y as u32,
    ensures
        x == y,
{
    vstd::utf8::char_is_scalar(x);
    vstd::utf8::char_is_scalar(y);
    assert(x as int == x as u32 as int);
    assert(x == y);
}

/// The character comparison returns `Equal` exactly on equal sequences.
proof fn lemma_cmp_chars_equal_iff(a: Seq<char>, b: Seq<char>)
    ensures
        spec_cmp_chars(a, b) == core::cmp::Ordering::Equal <==> a == b,
    decreases a.len() + b.len(),
{
    if a.len() > 0 && b.len() > 0 && (a[0] as u32) == (b[0] as u32) {
        lemma_cmp_chars_equal_iff(a.drop_first(), b.drop_first());
        if spec_cmp_chars(a, b) == core::cmp::Ordering::Equal {
            lemma_char_cast_injective(a[0], b[0]);
            assert(a =~= b) by {
                assert(a.len() == b.len());
                assert forall|k: int| 0 <= k < a.len() implies a[k] == b[k] by {
                    if k > 0 {
                        assert(a.drop_first()[k - 1] == b.drop_first()[k - 1]);
                        assert(a.drop_first()[k - 1] == a[k]);
                        assert(b.drop_first()[k - 1] == b[k]);
                    }
                }
            }
        }
    } else if a.len() == 0 && b.len() == 0 {
        assert(a =~= b);
    }
}

/// The character order is transitive.
proof fn lemma_cmp_chars_trans(a: Seq<char>, b: Seq<char>, c: Seq<char>)
    requires
        spec_cmp_chars(a, b) == core::cmp::Ordering::Less,
        spec_cmp_chars(b, c) == core::cmp::Ordering::Less,
    ensures
        spec_cmp_chars(a, c) == core::cmp::Ordering::Less,
    decreases a.len(),
{
    if a.len() == 0 {
        assert(b.len() > 0);
        assert(c.len() > 0);
    } else {
        assert(b.len() > 0);
        assert(c.len() > 0);
        let a0 = a[0] as u32;
        let b0 = b[0] as u32;
        let c0 = c[0] as u32;
        if a0 == b0 && b0 == c0 {
            lemma_cmp_chars_trans(a.drop_first(), b.drop_first(), c.drop_first());
        }
    }
}

/// The ranking over pronoun sets behaves as a total order for sorting:
/// comparison with oneself is `Equal`, swapping the arguments reverses the
/// result, and both strict and equal comparisons compose transitively.
/// Two `Defined` sets compare `Equal` exactly when they agree on
/// preferred-status, subject and object.
pub proof fn lemma_cmp_set_total_order(a: SetView, b: SetView, c: SetView)
    ensures
        crate::pronouns::spec_cmp_set(a, a) == core::cmp::Ordering::Equal,
        crate::pronouns::spec_cmp_set(b, a) == spec_ord_flip(crate::pronouns::spec_cmp_set(a, b)),
        crate::pronouns::spec_cmp_set(a, b) == core::cmp::Ordering::Less
            && crate::pronouns::spec_cmp_set(b, c) == core::cmp::Ordering::Less
            ==> crate::pronouns::spec_cmp_set(a, c) == core::cmp::Ordering::Less,
        crate::pronouns::spec_cmp_set(a, b) == core::cmp::Ordering::Equal
            && crate::pronouns::spec_cmp_set(b, c) == core::cmp::Ordering::Equal
            ==> crate::pronouns::spec_cmp_set(a, c) == core::cmp::Ordering::Equal,
        crate::pronouns::spec_cmp_set(a, b) == core::cmp::Ordering::Less
            && crate::pronouns::spec_cmp_set(b, c) == core::cmp::Ordering::Equal
            ==> crate::pronouns::spec_cmp_set(a, c) == core::cmp::Ordering::Less,
        crate::pronouns::spec_cmp_set(a, b) == core::cmp::Ordering::Equal
            && crate::pronouns::spec_cmp_set(b, c) == core::cmp::Ordering::Less
            ==> crate::pronouns::spec_cmp_set(a, c) == core::cmp::Ordering::Less,
{
    match a {
        SetView::Defined { definition: da, .. } => {
            lemma_cmp_chars_equal_iff(da.subject, da.subject);
            lemma_cmp_chars_equal_iff(da.object, da.object);
        },
        _ => {},
    }
    match (a, b) {
        (SetView::Defined { definition: da, .. }, SetView::Defined { definition: db, .. }) => {
            lemma_cmp_chars_flip(da.subject, db.subject);
            lemma_cmp_chars_flip(da.object, db.object);
            lemma_cmp_chars_equal_iff(da.subject, db.subject);
            lemma_cmp_chars_equal_iff(da.object, db.object);
        },
        _ => {},
    }
    match (a, b, c) {
        (
            SetView::Defined { definition: da, .. },
            SetView::Defined { definition: db, .. },
            SetView::Defined { definition: dc, .. },
        ) => {
            lemma_cmp_chars_equal_iff(da.subject, db.subject);
            lemma_cmp_chars_equal_iff(db.subject, dc.subject);
            lemma_cmp_chars_equal_iff(da.subject, dc.subject);
            lemma_cmp_chars_equal_iff(da.object, db.object);
            lemma_cmp_chars_equal_iff(db.object, dc.object);
            lemma_cmp_chars_equal_iff(da.object, dc.object);
            if spec_cmp_chars(da.subject, db.subject) == core::cmp::Ordering::Less
                && spec_cmp_chars(db.subject, dc.subject) == core::cmp::Ordering::Less {
                lemma_cmp_chars_trans(da.subject, db.subject, dc.subject);
            }
            if spec_cmp_chars(da.object, db.object) == core::cmp::Ordering::Less
                && spec_cmp_chars(db.object, dc.object) == core::cmp::Ordering::Less {
                lemma_cmp_chars_trans(da.object, db.object, dc.object);
            }
        },
        _ => {},
    }
}

// ---------------------------------------------------------------------------
// Round trip
// ---------------------------------------------------------------------------

/// Where a run of alphanumeric characters provably ends.
proof fn lemma_alnum_run(s: Seq<char>, i: int, e: int)
    requires
        0 <= i <= e <= s.len(),
        forall|k: int| i <= k < e ==> spec_is_alphanumeric(s[k]),
        e < s.len() ==> !spec_is_alphanumeric(s[e]),
    ensures
        spec_alnum_end(s, i) == e,
    decreases e - i,
{
    if i < e {
        lemma_alnum_run(s, i + 1, e);
    }
}

/// Where a run of whitespace provably ends.
proof fn lemma_ws_run(s: Seq<char>, i: int, e: int)
    requires
        0 <= i <= e <= s.len(),
        forall|k: int| i <= k < e ==> spec_is_whitespace(s[k]),
        e < s.len() ==> !spec_is_whitespace(s[e]),
    ensures
        spec_skip_ws(s, i) == e,
    decreases e - i,
{
    if i < e {
        lemma_ws_run(s, i + 1, e);
    }
}

/// Where a run of `;` provably ends.
proof fn lemma_semi_run(s: Seq<char>, i: int, e: int)
    requires
        0 <= i <= e <= s.len(),
        forall|k: int| i <= k < e ==> s[k] == ';',
        e < s.len() ==> s[e] != ';',
    ensures
        spec_skip_semicolons(s, i) == e,
    decreases e - i,
{
    if i < e {
        lemma_semi_run(s, i + 1, e);
    }
}

/// Where a run of tag-token characters provably ends.
proof fn lemma_tag_run(s: Seq<char>, i: int, e: int)
    requires
        0 <= i <= e <= s.len(),
        forall|k: int| i <= k < e ==> spec_is_tag_char(s[k]),
        e < s.len() ==> !spec_is_tag_char(s[e]),
    ensures
        spec_tag_end(s, i) == e,
    decreases e - i,
{
    if i < e {
        lemma_tag_run(s, i + 1, e);
    }
}

/// Text that does not end in whitespace is unchanged by trimming.
proof fn lemma_trim_end_fixed(c: Seq<char>)
    requires
        c.len() == 0 || !spec_is_whitespace(c[c.len() - 1]),
    ensures
        spec_trim_end(c) == c,
{
}

/// A token that re-scanning reads back exactly as it stands: nonempty,
/// wholly alphanumeric, free of whitespace, and a fixed point of the
/// lowercase mapping.
pub open spec fn plain_token(t: Seq<char>) -> bool {
    &&& t.len() > 0
    &&& forall|k: int| 0 <= k < t.len() ==> spec_is_alphanumeric(#[trigger] t[k])
    &&& forall|k: int| 0 <= k < t.len() ==> !spec_is_whitespace(#[trigger] t[k])
    &&& crate::text::lower_of(t) == t
}

/// The classification of the grammar's marker characters: none of them is
/// alphanumeric, the separators are not whitespace, and the space is.
pub open spec fn separators_classified() -> bool {
    &&& !spec_is_alphanumeric('/')
    &&& !spec_is_whitespace('/')
    &&& !spec_is_alphanumeric(';')
    &&& !spec_is_whitespace(';')
    &&& !spec_is_alphanumeric('#')
    &&& !spec_is_whitespace('#')
    &&& !spec_is_alphanumeric('*')
    &&& !spec_is_alphanumeric('!')
    &&& !spec_is_alphanumeric(' ')
    &&& spec_is_whitespace(' ')
}

/// The two recognized tag spellings are plain tokens.
pub open spec fn tag_literals_classified() -> bool {
    &&& plain_token("preferred"@)
    &&& plain_token("plural"@)
}

/// Comment text as the parser itself produces it: empty, or starting and
/// ending with a non-whitespace character.
pub open spec fn comment_trimmed(c: Option<Seq<char>>) -> bool {
    match c {
        Some(cc) => cc.len() == 0 || (!spec_is_whitespace(cc[0]) && !spec_is_whitespace(
            cc[cc.len() - 1],
        )),
        None => true,
    }
}

/// A definition's optional fields are populated left to right, as the
/// positional grammar fills them.
pub open spec fn fields_prefix_closed(d: crate::pronouns::DefView) -> bool {
    &&& d.possessive_pronoun is Some ==> d.possessive_determiner is Some
    &&& d.reflexive is Some ==> d.possessive_pronoun is Some
}

/// The fields a definition stores explicitly, in positional order.
pub open spec fn explicit_fields(d: crate::pronouns::DefView) -> Seq<Seq<char>> {
    match (d.possessive_determiner, d.possessive_pronoun, d.reflexive) {
        (Some(pd), Some(pp), Some(rf)) => seq![d.subject, d.object, pd, pp, rf],
        (Some(pd), Some(pp), None) => seq![d.subject, d.object, pd, pp],
        (Some(pd), None, _) => seq![d.subject, d.object, pd],
        (None, _, _) => seq![d.subject, d.object],
    }
}

/// Fields joined by `/`, as the canonical serialization writes them.
pub open spec fn join_fields(fs: Seq<Seq<char>>) -> Seq<char>
    decreases fs.len(),
{
    if fs.len() == 0 {
        Seq::empty()
    } else if fs.len() == 1 {
        fs[0]
    } else {
        fs[0] + "/"@ + join_fields(fs.drop_first())
    }
}

/// The serialized text after the pronoun set: the tag suffixes, then the
/// comment marker and text when a comment is present.
pub open spec fn tail_text(gs: Seq<crate::pronouns::PronounTag>, c: Option<Seq<char>>) -> Seq<
    char,
> {
    crate::pronouns::spec_tags_str(gs) + (match c {
        Some(cc) => " # "@ + cc,
        None => Seq::empty(),
    })
}

/// The builder holding exactly the five fields of `d` and the given tags.
pub open spec fn def_build_of(
    d: crate::pronouns::DefView,
    tags: Seq<crate::pronouns::PronounTag>,
) -> BuildView {
    BuildView::BuildDef {
        subject: d.subject,
        object: d.object,
        possessive_determiner: d.possessive_determiner,
        possessive_pronoun: d.possessive_pronoun,
        reflexive: d.reflexive,
        tags,
    }
}

/// The characters of a suffix, read back in the whole text.
proof fn lemma_suffix_chars(t: Seq<char>, i: int, u: Seq<char>)
    requires
        0 <= i <= t.len(),
        t.subrange(i, t.len() as int) == u,
    ensures
        t.len() - i == u.len(),
        forall|k: int| 0 <= k < u.len() ==> t[i + k] == #[trigger] u[k],
{
    assert forall|k: int| 0 <= k < u.len() implies t[i + k] == u[k] by {
        assert(t.subrange(i, t.len() as int)[k] == t[i + k]);
    }
}

/// Everything the round trip needs of a record: a defined set whose fields
/// are plain tokens filled left to right, a consistently derived family,
/// deduplicated tags, a trimmed comment, and the expected classification of
/// the marker characters and tag spellings.
pub open spec fn round_trip_ready(r: RecordView) -> bool {
    &&& separators_classified()
    &&& tag_literals_classified()
    &&& comment_trimmed(r.comment)
    &&& match r.set {
        Some(SetView::Defined { definition: d, tags: gs }) => {
            &&& fields_prefix_closed(d)
            &&& forall|k: int|
                0 <= k < explicit_fields(d).len() ==> plain_token(#[trigger] explicit_fields(d)[k])
            &&& d.wf()
            &&& gs.no_duplicates()
        },
        _ => false,
    }
}

/// Scanning `# ` plus trimmed comment text, in the tag phase, finishes the
/// record with exactly that comment.
#[verifier::spinoff_prover]
proof fn lemma_scan_comment(t: Seq<char>, i: int, b: BuildView, cc: Seq<char>)
    requires
        separators_classified(),
        (match b {
            BuildView::BuildDef { subject, object, .. } => subject.len() > 0 && object.len() > 0,
            _ => false,
        }),
        cc.len() == 0 || (!spec_is_whitespace(cc[0]) && !spec_is_whitespace(cc[cc.len() - 1])),
        0 <= i <= t.len(),
        t.subrange(i, t.len() as int) == "# "@ + cc,
    ensures
        spec_scan(t, i, ScanPhase::Tags, Some(b)) == Ok::<RecordView, ParserError>(
            RecordView { set: Some(crate::parser::spec_build_set(b)), comment: Some(cc) },
        ),
{
    reveal_strlit("# ");
    let len = t.len() as int;
    let u = "# "@ + cc;
    lemma_suffix_chars(t, i, u);
    assert(u.len() == 2 + cc.len());
    assert(u[0] == '#');
    assert(u[1] == ' ');
    assert(t[i] == '#');
    assert(t[i + 1] == ' ');
    assert(cc.len() > 0 ==> t[i + 2] == cc[0]) by {
        if cc.len() > 0 {
            assert(u[2] == cc[0]);
            assert(t[i + 2] == u[2]);
        }
    }
    lemma_ws_run(t, i + 1, i + 2);
    assert(t.subrange(i + 2, len) =~= cc) by {
        assert(forall|k: int| 0 <= k < cc.len() ==> #[trigger] cc[k] == u[2 + k]);
    }
    lemma_trim_end_fixed(cc);
}

/// Scanning the remaining `; tag` suffixes, then any comment, appends the
/// remaining tags in order and finishes the record.
#[verifier::spinoff_prover]
proof fn lemma_scan_tags_part(
    t: Seq<char>,
    i: int,
    d: crate::pronouns::DefView,
    done: Seq<crate::pronouns::PronounTag>,
    rest: Seq<crate::pronouns::PronounTag>,
    c: Option<Seq<char>>,
)
    requires
        separators_classified(),
        tag_literals_classified(),
        comment_trimmed(c),
        d.subject.len() > 0,
        d.object.len() > 0,
        (done + rest).no_duplicates(),
        rest.len() > 0,
        0 <= i <= t.len(),
        t.subrange(i, t.len() as int) == tail_text(rest, c),
    ensures
        spec_scan(t, i, ScanPhase::Tags, Some(def_build_of(d, done))) == Ok::<
            RecordView,
            ParserError,
        >(
            RecordView {
                set: Some(crate::parser::spec_build_set(def_build_of(d, done + rest))),
                comment: c,
            },
        ),
    decreases rest.len(),
{
    reveal_strlit("; ");
    reveal_strlit(" # ");
    reveal_strlit("# ");
    reveal_strlit("preferred");
    reveal_strlit("plural");
    let len = t.len() as int;
    let g = rest[0];
    let gtxt = crate::pronouns::spec_tag_str(g);
    let gl = gtxt.len() as int;
    let rest2 = rest.drop_first();
    let tail2 = tail_text(rest2, c);
    let u = tail_text(rest, c);
    assert(crate::pronouns::spec_tags_str(rest) == "; "@ + gtxt + crate::pronouns::spec_tags_str(
        rest2,
    ));
    assert(u =~= "; "@ + gtxt + tail2);
    lemma_suffix_chars(t, i, u);
    assert(plain_token(gtxt));
    assert(gl > 0);
    assert(len - i == 2 + gl + tail2.len());
    assert(t[i] == ';') by {
        assert(t[i] == u[0]);
    }
    assert(t[i + 1] == ' ') by {
        assert(t[i + 1] == u[1]);
    }
    assert forall|k: int| 0 <= k < gl implies t[i + 2 + k] == gtxt[k] by {
        assert(t[i + 2 + k] == u[2 + k]);
    }
    assert forall|k: int| 0 <= k < tail2.len() implies t[i + 2 + gl + k] == tail2[k] by {
        assert(t[i + 2 + gl + k] == u[2 + gl + k]);
    }

    // exactly one `;`, then one space of whitespace
    lemma_semi_run(t, i, i + 1);
    assert(t[i + 2] == gtxt[0]);
    assert(!spec_is_whitespace(t[i + 2]));
    lemma_ws_run(t, i + 1, i + 2);

    // the tag token runs to `e2`
    let e2 = i + 2 + gl;
    assert forall|k: int| i + 2 <= k < e2 implies spec_is_tag_char(t[k]) by {
        assert(t[k] == gtxt[k - i - 2]);
        assert(spec_is_alphanumeric(gtxt[k - i - 2]));
        assert(!spec_is_whitespace(gtxt[k - i - 2]));
    }
    if e2 < len {
        assert(tail2.len() > 0);
        if rest2.len() > 0 {
            assert(t[e2] == ';') by {
                assert(crate::pronouns::spec_tags_str(rest2) == "; "@
                    + crate::pronouns::spec_tag_str(rest2[0]) + crate::pronouns::spec_tags_str(
                    rest2.drop_first(),
                ));
                assert(tail2[0] == ';');
            }
        } else {
            assert(t[e2] == ' ') by {
                assert(tail2[0] == ' ');
            }
        }
        assert(!spec_is_tag_char(t[e2]));
    }
    lemma_tag_run(t, i + 2, e2);
    assert(t.subrange(i + 2, e2) =~= gtxt);
    assert(crate::text::lower_of(gtxt) == gtxt);
    assert(crate::pronouns::spec_tag_of(gtxt) == Some(g)) by {
        match g {
            crate::pronouns::PronounTag::Preferred => {},
            crate::pronouns::PronounTag::Plural => {
                assert("plural"@.len() != "preferred"@.len());
            },
        }
    }

    // the collected tags do not hold this one yet
    let b = def_build_of(d, done);
    assert(!done.contains(g)) by {
        if done.contains(g) {
            let k = choose|k: int| 0 <= k < done.len() && done[k] == g;
            assert((done + rest)[k] == g);
            assert((done + rest)[done.len() as int] == g);
        }
    }
    let done2 = done.push(g);
    assert(crate::parser::spec_push_tag(b, g) == def_build_of(d, done2));

    if rest2.len() > 0 {
        // the scan resumes at the `;` of the next tag
        assert(t[e2] == ';');
        lemma_ws_run(t, e2, e2);
        assert(t.subrange(e2, len) =~= tail_text(rest2, c));
        assert((done2 + rest2) =~= (done + rest));
        lemma_scan_tags_part(t, e2, d, done2, rest2, c);
    } else {
        assert(done2 =~= done + rest);
        match c {
            Some(cc) => {
                // one space, then the comment marker
                assert(tail2 =~= " # "@ + cc);
                assert(t[e2] == ' ');
                assert(t[e2 + 1] == '#') by {
                    assert(tail2[1] == '#');
                }
                lemma_ws_run(t, e2, e2 + 1);
                assert(tail2.len() == 3 + cc.len());
                assert(t.subrange(e2 + 1, len) =~= "# "@ + cc) by {
                    assert(len - e2 == tail2.len());
                    assert forall|q: int| 0 <= q < len - e2 - 1 implies t.subrange(
                        e2 + 1,
                        len,
                    )[q] == ("# "@ + cc)[q] by {
                        assert(t.subrange(e2 + 1, len)[q] == t[e2 + 1 + q]);
                        assert(t[e2 + 1 + q] == tail2[1 + q]);
                        assert(tail2[1 + q] == (" # "@ + cc)[1 + q]);
                    }
                }
                lemma_scan_comment(t, e2 + 1, def_build_of(d, done2), cc);
            },
            None => {
                // end of input: the record is complete
                assert(e2 == len);
                lemma_ws_run(t, e2, e2);
            },
        }
    }
}

/// The builder after the first `n` fields of a definition have been read.
pub open spec fn partial_def_build(d: crate::pronouns::DefView, n: int) -> BuildView {
    BuildView::BuildDef {
        subject: if n >= 1 {
            d.subject
        } else {
            Seq::empty()
        },
        object: if n >= 2 {
            d.object
        } else {
            Seq::empty()
        },
        possessive_determiner: if n >= 3 {
            d.possessive_determiner
        } else {
            None
        },
        possessive_pronoun: if n >= 4 {
            d.possessive_pronoun
        } else {
            None
        },
        reflexive: if n >= 5 {
            d.reflexive
        } else {
            None
        },
        tags: Seq::empty(),
    }
}

/// Scanning the remaining fields, then the tags and any comment, rebuilds
/// the definition and finishes the record.
#[verifier::spinoff_prover]
#[verifier::rlimit(50)]
proof fn lemma_scan_fields_part(
    t: Seq<char>,
    i: int,
    n: int,
    d: crate::pronouns::DefView,
    gs: Seq<crate::pronouns::PronounTag>,
    c: Option<Seq<char>>,
)
    requires
        separators_classified(),
        tag_literals_classified(),
        comment_trimmed(c),
        fields_prefix_closed(d),
        forall|k: int|
            0 <= k < explicit_fields(d).len() ==> plain_token(#[trigger] explicit_fields(d)[k]),
        gs.no_duplicates(),
        0 <= n < explicit_fields(d).len(),
        explicit_fields(d).len() <= 5,
        0 <= i <= t.len(),
        t.subrange(i, t.len() as int) == join_fields(explicit_fields(d).skip(n)) + tail_text(
            gs,
            c,
        ),
    ensures
        spec_scan(
            t,
            i,
            ScanPhase::Fields { n: n, trailing_slash: n > 0 },
            if n == 0 {
                None
            } else {
                Some(partial_def_build(d, n))
            },
        ) == Ok::<RecordView, ParserError>(
            RecordView {
                set: Some(crate::parser::spec_build_set(def_build_of(d, gs))),
                comment: c,
            },
        ),
    decreases explicit_fields(d).len() - n,
{
    reveal_strlit("/");
    reveal_strlit("; ");
    reveal_strlit(" # ");
    reveal_strlit("# ");
    let len = t.len() as int;
    let fs = explicit_fields(d);
    let m = fs.len() as int;
    let f = fs[n];
    assert(plain_token(f));
    let fl = f.len() as int;
    let tail = tail_text(gs, c);
    let after = if n + 1 < m {
        "/"@ + join_fields(fs.skip(n + 1)) + tail
    } else {
        tail
    };
    let u = f + after;
    assert(fs.skip(n)[0] == f);
    if n + 1 < m {
        assert(join_fields(fs.skip(n)) == fs.skip(n)[0] + "/"@ + join_fields(
            fs.skip(n).drop_first(),
        ));
        assert(fs.skip(n).drop_first() =~= fs.skip(n + 1));
        assert(t.subrange(i, len) =~= u);
    } else {
        assert(fs.skip(n).len() == 1);
        assert(join_fields(fs.skip(n)) == f);
        assert(t.subrange(i, len) =~= u);
    }
    lemma_suffix_chars(t, i, u);

    // the field token is a maximal alphanumeric run
    assert(t[i] == f[0]) by {
        assert(t[i + 0] == u[0]);
        assert(u[0] == f[0]);
    }
    assert(spec_is_alphanumeric(t[i]));
    assert(!spec_is_whitespace(t[i]));
    assert(t[i] != ';' && t[i] != '#' && t[i] != '*' && t[i] != '!');
    let e = i + fl;
    assert forall|k: int| i <= k < e implies spec_is_alphanumeric(t[k]) by {
        assert(t[k] == u[k - i]);
        assert(u[k - i] == f[k - i]);
    }
    let ghost next_field_head: char = if n + 1 < m {
        fs[n + 1][0]
    } else {
        ' '
    };
    if n + 1 < m {
        assert(plain_token(fs[n + 1]));
        assert(after[0] == '/');
        assert(after[1] == join_fields(fs.skip(n + 1))[0]);
        if m - (n + 1) == 1 {
            assert(join_fields(fs.skip(n + 1)) == fs.skip(n + 1)[0]);
        } else {
            assert(join_fields(fs.skip(n + 1)) == fs.skip(n + 1)[0] + "/"@ + join_fields(
                fs.skip(n + 1).drop_first(),
            ));
        }
        assert(fs.skip(n + 1)[0] == fs[n + 1]);
        assert(after[1] == fs[n + 1][0]);
    }
    if e < len {
        assert(t[e] == after[0]) by {
            assert(t[i + fl] == u[fl]);
            assert(u[fl] == after[0]);
        }
        if n + 1 < m {
            assert(after[0] == '/');
        } else if gs.len() > 0 {
            assert(crate::pronouns::spec_tags_str(gs) == "; "@ + crate::pronouns::spec_tag_str(
                gs[0],
            ) + crate::pronouns::spec_tags_str(gs.drop_first()));
            assert(after[0] == ';');
        } else {
            match c {
                Some(cc) => {
                    assert(after[0] == ' ');
                },
                None => {
                    assert(after.len() == 0);
                },
            }
        }
        assert(!spec_is_alphanumeric(t[e]));
    }
    lemma_alnum_run(t, i, e);
    assert(t.subrange(i, e) =~= f);
    assert(crate::text::lower_of(f) == f);

    // the token lands in slot `n` of the builder
    let b: Option<BuildView> = if n == 0 {
        None
    } else {
        Some(partial_def_build(d, n))
    };
    let b2 = crate::parser::spec_put_field(b, n, f);
    assert(b2 == partial_def_build(d, n + 1)) by {
        if n == 0 {
            assert(fs[0] == d.subject);
        } else if n == 1 {
            assert(fs[1] == d.object);
        } else if n == 2 {
            assert(m >= 3);
            assert(d.possessive_determiner is Some && fs[2] == d.possessive_determiner->0);
        } else if n == 3 {
            assert(m >= 4);
            assert(d.possessive_pronoun is Some && fs[3] == d.possessive_pronoun->0);
        } else {
            assert(m == 5);
            assert(d.reflexive is Some && fs[4] == d.reflexive->0);
        }
    }

    if n + 1 < m {
        // a slash follows: the scan moves on to the next field
        assert(t[e] == '/');
        assert(!spec_is_whitespace(t[e]));
        lemma_ws_run(t, e, e);
        assert(t[e + 1] == after[1]) by {
            assert(t[i + (fl + 1)] == u[fl + 1]);
            assert(u[fl + 1] == after[1]);
        }
        assert(t[e + 1] == fs[n + 1][0]);
        assert(!spec_is_whitespace(t[e + 1]));
        lemma_ws_run(t, e + 1, e + 1);
        assert(t.subrange(e + 1, len) =~= join_fields(fs.skip(n + 1)) + tail) by {
            assert forall|q: int|
                0 <= q < len - e - 1 implies #[trigger] t.subrange(e + 1, len)[q] == (join_fields(
                fs.skip(n + 1),
            ) + tail)[q] by {
                assert(t.subrange(e + 1, len)[q] == t[e + 1 + q]);
                assert(t[e + 1 + q] == u[fl + 1 + q]);
                assert(u[fl + 1 + q] == after[1 + q]);
            }
        }
        lemma_scan_fields_part(t, e + 1, n + 1, d, gs, c);
    } else {
        // the field sequence is done
        if gs.len() > 0 {
            assert(t[e] == ';');
            assert(!spec_is_whitespace(t[e]));
            lemma_ws_run(t, e, e);
            assert(t.subrange(e, len) =~= tail_text(gs, c)) by {
                assert forall|q: int|
                    0 <= q < len - e implies #[trigger] t.subrange(e, len)[q] == tail_text(
                    gs,
                    c,
                )[q] by {
                    assert(t.subrange(e, len)[q] == t[e + q]);
                    assert(t[i + (fl + q)] == u[fl + q]);
                    assert(u[fl + q] == after[q]);
                }
            }
            assert(b2 == def_build_of(d, Seq::empty()));
            assert(Seq::<crate::pronouns::PronounTag>::empty() + gs =~= gs);
            assert(d.subject.len() > 0 && d.object.len() > 0) by {
                assert(fs[0] == d.subject && plain_token(fs[0]));
                assert(fs[1] == d.object && plain_token(fs[1]));
            }
            lemma_scan_tags_part(t, e, d, Seq::empty(), gs, c);
        } else {
            match c {
                Some(cc) => {
                    assert(t[e] == ' ');
                    assert(after =~= " # "@ + cc) by {
                        assert(crate::pronouns::spec_tags_str(gs) == Seq::<char>::empty());
                    }
                    assert(t[e + 1] == after[1]) by {
                        assert(t[i + (fl + 1)] == u[fl + 1]);
                        assert(u[fl + 1] == after[1]);
                    }
                    assert(t[e + 1] == '#');
                    assert(!spec_is_whitespace(t[e + 1]));
                    lemma_ws_run(t, e, e + 1);
                    assert(t.subrange(e + 1, len) =~= "# "@ + cc) by {
                        assert forall|q: int|
                            0 <= q < len - e - 1 implies #[trigger] t.subrange(e + 1, len)[q] == (
                            "# "@ + cc)[q] by {
                            assert(t.subrange(e + 1, len)[q] == t[e + 1 + q]);
                            assert(t[e + 1 + q] == u[fl + 1 + q]);
                            assert(u[fl + 1 + q] == after[1 + q]);
                        }
                    }
                    assert(b2 == def_build_of(d, Seq::empty()));
                    assert(d.subject.len() > 0 && d.object.len() > 0) by {
                        assert(fs[0] == d.subject && plain_token(fs[0]));
                        assert(fs[1] == d.object && plain_token(fs[1]));
                    }
                    lemma_scan_comment(t, e + 1, def_build_of(d, Seq::empty()), cc);
                    assert(def_build_of(d, Seq::empty()) == def_build_of(d, gs));
                },
                None => {
                    assert(after.len() == 0) by {
                        assert(crate::pronouns::spec_tags_str(gs) == Seq::<char>::empty());
                    }
                    assert(e == len);
                    lemma_ws_run(t, e, e);
                    assert(b2 == def_build_of(d, gs));
                    assert(d.subject.len() > 0 && d.object.len() > 0) by {
                        assert(fs[0] == d.subject && plain_token(fs[0]));
                        assert(fs[1] == d.object && plain_token(fs[1]));
                    }
                },
            }
        }
    }
}

/// A definition's canonical text is its explicit fields joined by `/`.
proof fn lemma_def_str_join(d: crate::pronouns::DefView)
    requires
        fields_prefix_closed(d),
    ensures
        crate::pronouns::spec_def_str(d) == join_fields(explicit_fields(d)),
{
    let fs = explicit_fields(d);
    let m = fs.len() as int;
    if m == 2 {
        assert(join_fields(fs) == fs[0] + "/"@ + join_fields(fs.drop_first()));
        assert(fs.drop_first().len() == 1);
        assert(join_fields(fs.drop_first()) == fs.drop_first()[0]);
        assert(crate::pronouns::spec_def_str(d) =~= join_fields(fs));
    } else if m == 3 {
        let f1 = fs.drop_first();
        let f2 = f1.drop_first();
        assert(join_fields(fs) == fs[0] + "/"@ + join_fields(f1));
        assert(join_fields(f1) == f1[0] + "/"@ + join_fields(f2));
        assert(join_fields(f2) == f2[0]);
        assert(crate::pronouns::spec_def_str(d) =~= join_fields(fs));
    } else if m == 4 {
        let f1 = fs.drop_first();
        let f2 = f1.drop_first();
        let f3 = f2.drop_first();
        assert(join_fields(fs) == fs[0] + "/"@ + join_fields(f1));
        assert(join_fields(f1) == f1[0] + "/"@ + join_fields(f2));
        assert(join_fields(f2) == f2[0] + "/"@ + join_fields(f3));
        assert(join_fields(f3) == f3[0]);
        assert(crate::pronouns::spec_def_str(d) =~= join_fields(fs));
    } else {
        let f1 = fs.drop_first();
        let f2 = f1.drop_first();
        let f3 = f2.drop_first();
        let f4 = f3.drop_first();
        assert(join_fields(fs) == fs[0] + "/"@ + join_fields(f1));
        assert(join_fields(f1) == f1[0] + "/"@ + join_fields(f2));
        assert(join_fields(f2) == f2[0] + "/"@ + join_fields(f3));
        assert(join_fields(f3) == f3[0] + "/"@ + join_fields(f4));
        assert(join_fields(f4) == f4[0]);
        assert(crate::pronouns::spec_def_str(d) =~= join_fields(fs));
    }
}

/// Round trip: serializing a well-formed explicit definition record and
/// parsing the text back yields exactly the same record, tags, comment and
/// derived family included.
#[verifier::spinoff_prover]
#[verifier::rlimit(50)]
pub proof fn lemma_round_trip(r: RecordView)
    requires
        round_trip_ready(r),
    ensures
        spec_parse(crate::pronouns::spec_record_str(r)) == Ok::<RecordView, ParserError>(r),
{
    let t = crate::pronouns::spec_record_str(r);
    match r.set {
        Some(SetView::Defined { definition: d, tags: gs }) => {
            lemma_def_str_join(d);
            let fs = explicit_fields(d);
            assert(t =~= join_fields(fs) + tail_text(gs, r.comment));
            assert(t.subrange(0, t.len() as int) =~= join_fields(fs.skip(0)) + tail_text(
                gs,
                r.comment,
            )) by {
                assert(fs.skip(0) =~= fs);
            }
            assert(plain_token(fs[0]));
            assert(t[0] == fs[0][0]) by {
                if fs.len() > 2 || gs.len() > 0 || r.comment is Some {
                    assert(join_fields(fs) == fs[0] + "/"@ + join_fields(fs.drop_first()));
                } else {
                }
                assert((join_fields(fs) + tail_text(gs, r.comment))[0] == join_fields(fs)[0]);
            }
            assert(!spec_is_whitespace(t[0]));
            lemma_ws_run(t, 0, 0);
            lemma_scan_fields_part(t, 0, 0, d, gs, r.comment);
            assert(crate::parser::spec_build_set(def_build_of(d, gs)) == SetView::Defined {
                definition: d,
                tags: gs,
            }) by {
                assert(d.wf());
            }
            assert(RecordView { set: r.set, comment: r.comment } == r);
        },
        _ => {},
    }
}

/// Whether `s` is a plain token: nonempty, wholly alphanumeric, free of
/// whitespace, and unchanged by lowercasing.
fn plain_token_check(s: &str) -> (r: bool)
    ensures
        r == plain_token(s@),
{
    let len = s.unicode_len();
    if len == 0 {
        return false;
    }
    let mut k: usize = 0;
    while k < len
        invariant
            len == s@.len(),
            k <= len,
            forall|j: int|
                0 <= j < k ==> spec_is_alphanumeric(#[trigger] s@[j]) && !spec_is_whitespace(
                    s@[j],
                ),
        decreases len - k,
    {
        let ch = s.get_char(k);
        if !is_alphanumeric_char(ch) {
            return false;
        }
        if is_whitespace_char(ch) {
            return false;
        }
        k += 1;
    }
    let lowered = to_lowercase_str(s);
    str_eq(lowered.as_str(), s)
}

/// Runtime check of the marker-character classification the grammar's
/// round trip relies on.
fn separators_check() -> (r: bool)
    ensures
        r == separators_classified(),
{
    !is_alphanumeric_char('/') && !is_whitespace_char('/') && !is_alphanumeric_char(';')
        && !is_whitespace_char(';') && !is_alphanumeric_char('#') && !is_whitespace_char('#')
        && !is_alphanumeric_char('*') && !is_alphanumeric_char('!') && !is_alphanumeric_char(' ')
        && is_whitespace_char(' ')
}

/// Runtime check that the two tag spellings are plain tokens.
fn tag_literals_check() -> (r: bool)
    ensures
        r == tag_literals_classified(),
{
    plain_token_check("preferred") && plain_token_check("plural")
}

/// Whether `s` neither starts nor ends with whitespace.
fn trimmed_check(s: &str) -> (r: bool)
    ensures
        r == (s@.len() == 0 || (!spec_is_whitespace(s@[0]) && !spec_is_whitespace(
            s@[s@.len() - 1],
        ))),
{
    let len = s.unicode_len();
    if len == 0 {
        true
    } else {
        !is_whitespace_char(s.get_char(0)) && !is_whitespace_char(s.get_char(len - 1))
    }
}

/// Whether `tags` holds no tag twice.
fn tags_distinct_check(tags: &Vec<PronounTag>) -> (r: bool)
    ensures
        r == tags@.no_duplicates(),
{
    let len = tags.len();
    let mut a: usize = 0;
    while a < len
        invariant
            len == tags@.len(),
            a <= len,
            forall|x: int, y: int| 0 <= x < a && x < y < len ==> tags@[x] != tags@[y],
        decreases len - a,
    {
        let mut b: usize = a + 1;
        while b < len
            invariant
                len == tags@.len(),
                a < len,
                a < b <= len,
                forall|y: int| a < y < b ==> tags@[a as int] != tags@[y],
            decreases len - b,
        {
            if tags[a] == tags[b] {
                return false;
            }
            b += 1;
        }
        a += 1;
    }
    true
}

/// Check, at run time, everything [`lemma_round_trip`] assumes of a
/// record, and conclude the round trip for it: this returns true exactly
/// on the records the law covers, and whenever it does, the record's
/// canonical text parses back to exactly the record.
pub fn check_round_trip(record: &PronounRecord) -> (b: bool)
    ensures
        b == round_trip_ready(record@),
        b ==> spec_parse(crate::pronouns::spec_record_str(record@)) == Ok::<
            RecordView,
            ParserError,
        >(record@),
{
    let set = match &record.set {
        Some(s) => s,
        None => {
            return false;
        },
    };
    let (definition, tags) = match set {
        PronounSet::Defined { definition, tags } => (definition, tags),
        _ => {
            return false;
        },
    };
    proof {
        definition.lemma_view_fields();
    }
    if definition.possessive_pronoun.is_some() && definition.possessive_determiner.is_none() {
        return false;
    }
    if definition.reflexive.is_some() && definition.possessive_pronoun.is_none() {
        return false;
    }
    if !plain_token_check(definition.subject.as_str()) {
        proof {
            assert(explicit_fields(definition@)[0] == definition@.subject);
        }
        return false;
    }
    if !plain_token_check(definition.object.as_str()) {
        proof {
            assert(explicit_fields(definition@)[1] == definition@.object);
        }
        return false;
    }
    if let Some(pd) = &definition.possessive_determiner {
        if !plain_token_check(pd.as_str()) {
            proof {
                assert(explicit_fields(definition@)[2] == definition@.possessive_determiner->0);
            }
            return false;
        }
    }
    if let Some(pp) = &definition.possessive_pronoun {
        if !plain_token_check(pp.as_str()) {
            proof {
                assert(explicit_fields(definition@)[3] == definition@.possessive_pronoun->0);
            }
            return false;
        }
    }
    if let Some(rf) = &definition.reflexive {
        if !plain_token_check(rf.as_str()) {
            proof {
                assert(explicit_fields(definition@)[4] == definition@.reflexive->0);
            }
            return false;
        }
    }
    if !definition.family_consistent() {
        return false;
    }
    if !tags_distinct_check(tags) {
        return false;
    }
    if let Some(c) = &record.comment {
        if !trimmed_check(c.as_str()) {
            return false;
        }
    }
    if !separators_check() {
        return false;
    }
    if !tag_literals_check() {
        return false;
    }
    proof {
        let d = definition@;
        let fs = explicit_fields(d);
        assert forall|k: int| 0 <= k < fs.len() implies plain_token(#[trigger] fs[k]) by {
            if k == 0 {
                assert(fs[k] == d.subject);
            } else if k == 1 {
                assert(fs[k] == d.object);
            } else if k == 2 {
                assert(d.possessive_determiner is Some && fs[k] == d.possessive_determiner->0);
            } else if k == 3 {
                assert(d.possessive_pronoun is Some && fs[k] == d.possessive_pronoun->0);
            } else {
                assert(d.reflexive is Some && fs[k] == d.reflexive->0);
            }
        }
        assert(round_trip_ready(record@));
        lemma_round_trip(record@);
    }
    true
}

} // verus!
