//! Templates: text with `{{ path.to.value }}` placeholders.
//!
//! A template text is cut into literal runs and expressions. An expression is
//! `{{`, one or more names separated by `.`, and `}}`; a name is a letter
//! followed by letters, digits and `_`, and blanks may stand around each name.
//! Whatever is not part of an expression is literal text.

use vstd::prelude::*;
use vstd::string::StringExecFns;
use vstd::string::StrSliceExecFns;
use crate::model::{deep, lemma_deep_push};
use crate::text::{chars_of, join, joined};

verus! {

/// One part of a template: text as it stands, or the path of a value that
/// is filled in later.
#[derive(Clone, Debug, PartialEq, Eq)]
pub enum Segment {
    Literal(String),
    Expression(Vec<String>),
}

pub enum SegmentView {
    Literal(Seq<char>),
    Expression(Seq<Seq<char>>),
}

impl View for Segment {
    type V = SegmentView;

    open spec fn view(&self) -> SegmentView {
        match self {
            Segment::Literal(text) => SegmentView::Literal(text@),
            Segment::Expression(path) => SegmentView::Expression(deep(path@)),
        }
    }
}

impl DeepView for Segment {
    type V = SegmentView;

    open spec fn deep_view(&self) -> SegmentView {
        self@
    }
}

/// A template: its segments in order.
#[derive(Clone, Debug, PartialEq, Eq)]
pub struct Mustache {
    pub segments: Vec<Segment>,
}

impl View for Mustache {
    type V = Seq<SegmentView>;

    open spec fn view(&self) -> Seq<SegmentView> {
        deep(self.segments@)
    }
}

impl DeepView for Mustache {
    type V = Seq<SegmentView>;

    open spec fn deep_view(&self) -> Seq<SegmentView> {
        self@
    }
}

/// Whether a character is a blank: a space, a tab or a line end.
pub open spec fn is_blank(c: char) -> bool {
    c == ' ' || c == '\t' || c == '\n' || c == '\r'
}

/// Whether a character is one of the letters `a` to `z` and `A` to `Z`.
pub open spec fn is_letter(c: char) -> bool {
    ('a' <= c && c <= 'z') || ('A' <= c && c <= 'Z')
}

/// Whether a character may stand in a name: a letter, a digit or `_`.
pub open spec fn is_name_char(c: char) -> bool {
    is_letter(c) || ('0' <= c && c <= '9') || c == '_'
}

/// The first position at or after `i` that holds no blank.
pub open spec fn skip_blanks(s: Seq<char>, i: int) -> int
    decreases s.len() - i,
{
    if 0 <= i < s.len() && is_blank(s[i]) {
        skip_blanks(s, i + 1)
    } else {
        i
    }
}

/// The first position at or after `i` that holds no character of a name.
pub open spec fn name_end(s: Seq<char>, i: int) -> int
    decreases s.len() - i,
{
    if 0 <= i < s.len() && is_name_char(s[i]) {
        name_end(s, i + 1)
    } else {
        i
    }
}

/// The dotted path that starts at `i`, and the position behind it (blanks
/// included); `None` where no name stands there or a `.` is followed by none.
pub open spec fn path_at(s: Seq<char>, i: int) -> Option<(Seq<Seq<char>>, int)>
    decreases s.len() - i,
    via path_at_decreases
{
    let a = skip_blanks(s, i);
    if 0 <= i && a < s.len() && is_letter(s[a]) {
        let b = name_end(s, a);
        let c = skip_blanks(s, b);
        let name = s.subrange(a, b);
        if c < s.len() && s[c] == '.' {
            match path_at(s, c + 1) {
                Some((rest, end)) => Some((seq![name] + rest, end)),
                None => None,
            }
        } else {
            Some((seq![name], c))
        }
    } else {
        None
    }
}

#[via_fn]
proof fn path_at_decreases(s: Seq<char>, i: int) {
    let a = skip_blanks(s, i);
    if 0 <= i && a < s.len() && is_letter(s[a]) {
        lemma_skip_blanks_bounds(s, i);
        lemma_name_end_bounds(s, a);
        lemma_skip_blanks_bounds(s, name_end(s, a));
    }
}

/// Skipping blanks goes forward, stays in the text and ends at no blank.
pub proof fn lemma_skip_blanks_bounds(s: Seq<char>, i: int)
    requires
        0 <= i,
    ensures
        i <= skip_blanks(s, i),
        i <= s.len() ==> skip_blanks(s, i) <= s.len(),
        skip_blanks(s, i) < s.len() ==> !is_blank(s[skip_blanks(s, i)]),
    decreases s.len() - i,
{
    if i < s.len() && is_blank(s[i]) {
        lemma_skip_blanks_bounds(s, i + 1);
    }
}

/// A name ends behind its start, inside the text.
pub proof fn lemma_name_end_bounds(s: Seq<char>, i: int)
    requires
        0 <= i,
    ensures
        i <= name_end(s, i),
        i <= s.len() ==> name_end(s, i) <= s.len(),
        i < s.len() && is_name_char(s[i]) ==> i < name_end(s, i),
    decreases s.len() - i,
{
    if i < s.len() && is_name_char(s[i]) {
        lemma_name_end_bounds(s, i + 1);
    }
}

/// A path ends behind its start, inside the text, and holds a name.
pub proof fn lemma_path_at_bounds(s: Seq<char>, i: int)
    requires
        path_at(s, i) is Some,
    ensures
        path_at(s, i) matches Some(found) && 0 <= i < found.1 <= s.len() && found.0.len() > 0,
    decreases s.len() - i,
{
    let a = skip_blanks(s, i);
    lemma_skip_blanks_bounds(s, i);
    lemma_name_end_bounds(s, a);
    let b = name_end(s, a);
    lemma_skip_blanks_bounds(s, b);
    let c = skip_blanks(s, b);
    if c < s.len() && s[c] == '.' {
        lemma_path_at_bounds(s, c + 1);
    }
}

/// The path of the expression that starts at `i`, and the position behind
/// its `}}`; `None` where no expression starts there.
pub open spec fn expression_at(s: Seq<char>, i: int) -> Option<(Seq<Seq<char>>, int)> {
    if 0 <= i && i + 1 < s.len() && s[i] == '{' && s[i + 1] == '{' {
        match path_at(s, i + 2) {
            Some((path, end)) => if end + 1 < s.len() && s[end] == '}' && s[end + 1] == '}' {
                Some((path, end + 2))
            } else {
                None
            },
            None => None,
        }
    } else {
        None
    }
}

/// An expression ends behind its start, inside the text, and has a path.
pub proof fn lemma_expression_at_bounds(s: Seq<char>, i: int)
    requires
        expression_at(s, i) is Some,
    ensures
        expression_at(s, i) matches Some(found) && 0 <= i < found.1 <= s.len() && found.0.len()
            > 0,
{
    lemma_path_at_bounds(s, i + 2);
}

/// The end of the literal run that reaches `i`: the first position at or
/// after `i` where an expression starts, or the end of the text.
pub open spec fn literal_end(s: Seq<char>, i: int) -> int
    decreases s.len() - i,
{
    if i >= s.len() {
        s.len() as int
    } else if expression_at(s, i) is Some {
        i
    } else {
        literal_end(s, i + 1)
    }
}

/// A literal run ends inside the text, at an expression or at the end.
pub proof fn lemma_literal_end_bounds(s: Seq<char>, i: int)
    requires
        0 <= i <= s.len(),
    ensures
        i <= literal_end(s, i) <= s.len(),
        literal_end(s, i) < s.len() ==> expression_at(s, literal_end(s, i)) is Some,
    decreases s.len() - i,
{
    if i < s.len() && expression_at(s, i) is None {
        lemma_literal_end_bounds(s, i + 1);
    }
}

/// The segments of the text from position `i` on.
pub open spec fn segments_from(s: Seq<char>, i: int) -> Seq<SegmentView>
    decreases s.len() - i,
    via segments_from_decreases
{
    if i < 0 || i >= s.len() {
        Seq::empty()
    } else {
        match expression_at(s, i) {
            Some((path, end)) => seq![SegmentView::Expression(path)] + segments_from(s, end),
            None => {
                let end = literal_end(s, i + 1);
                seq![SegmentView::Literal(s.subrange(i, end))] + segments_from(s, end)
            },
        }
    }
}

#[via_fn]
proof fn segments_from_decreases(s: Seq<char>, i: int) {
    if !(i < 0 || i >= s.len()) {
        if expression_at(s, i) is Some {
            lemma_expression_at_bounds(s, i);
        } else {
            lemma_literal_end_bounds(s, i + 1);
        }
    }
}

/// The segments of a template text. The empty text is one empty literal, so
/// that every template has a first segment.
pub open spec fn segments_of(s: Seq<char>) -> Seq<SegmentView> {
    if s.len() == 0 {
        seq![SegmentView::Literal(Seq::empty())]
    } else {
        segments_from(s, 0)
    }
}

/// The text of one segment: a literal as it is, an expression as `{{a.b}}`.
pub open spec fn rendered_segment(segment: SegmentView) -> Seq<char> {
    match segment {
        SegmentView::Literal(text) => text,
        SegmentView::Expression(path) => "{{"@ + joined(path, "."@) + "}}"@,
    }
}

/// The text of a template: its segments' texts one after another.
pub open spec fn rendered(segments: Seq<SegmentView>) -> Seq<char>
    decreases segments.len(),
{
    if segments.len() == 0 {
        Seq::empty()
    } else {
        rendered(segments.drop_last()) + rendered_segment(segments.last())
    }
}

/// Whether no segment is an expression.
pub open spec fn all_literal(segments: Seq<SegmentView>) -> bool {
    forall|i: int| 0 <= i < segments.len() ==> (#[trigger] segments[i]) is Literal
}

/// Whether a text is a name: a letter, then letters, digits and `_`.
pub open spec fn is_name(s: Seq<char>) -> bool {
    &&& s.len() > 0
    &&& is_letter(s[0])
    &&& forall|i: int| 0 <= i < s.len() ==> is_name_char(#[trigger] s[i])
}

/// Whether every name of a path is a name, and there is one at least.
pub open spec fn is_path(path: Seq<Seq<char>>) -> bool {
    &&& path.len() > 0
    &&& forall|i: int| 0 <= i < path.len() ==> is_name(#[trigger] path[i])
}

/// Whether the path of every expression is one.
pub open spec fn well_formed(segments: Seq<SegmentView>) -> bool {
    forall|i: int|
        0 <= i < segments.len() ==> (match #[trigger] segments[i] {
            SegmentView::Expression(path) => is_path(path),
            SegmentView::Literal(_) => true,
        })
}

proof fn lemma_name_end_chars(s: Seq<char>, i: int)
    requires
        0 <= i,
    ensures
        forall|k: int| i <= k < name_end(s, i) ==> is_name_char(#[trigger] s[k]),
    decreases s.len() - i,
{
    if i < s.len() && is_name_char(s[i]) {
        lemma_name_end_chars(s, i + 1);
    }
}

proof fn lemma_path_at_is_path(s: Seq<char>, i: int)
    requires
        path_at(s, i) is Some,
    ensures
        path_at(s, i) matches Some(found) && is_path(found.0),
    decreases s.len() - i,
{
    let a = skip_blanks(s, i);
    lemma_skip_blanks_bounds(s, i);
    lemma_name_end_bounds(s, a);
    lemma_name_end_chars(s, a);
    let b = name_end(s, a);
    lemma_skip_blanks_bounds(s, b);
    let c = skip_blanks(s, b);
    let name = s.subrange(a, b);
    assert(is_name(name)) by {
        assert(name[0] == s[a]);
        assert forall|k: int| 0 <= k < name.len() implies is_name_char(#[trigger] name[k]) by {
            assert(name[k] == s[a + k]);
        }
    }
    if c < s.len() && s[c] == '.' {
        lemma_path_at_is_path(s, c + 1);
        let found = path_at(s, c + 1).unwrap();
        let rest = found.0;
        let path = seq![name] + rest;
        assert forall|k: int| 0 <= k < path.len() implies is_name(#[trigger] path[k]) by {
            if k > 0 {
                assert(path[k] == rest[k - 1]);
            }
        }
    }
}

proof fn lemma_segments_from_well_formed(s: Seq<char>, i: int)
    ensures
        well_formed(segments_from(s, i)),
    decreases s.len() - i,
{
    if 0 <= i < s.len() {
        match expression_at(s, i) {
            Some((path, end)) => {
                lemma_expression_at_bounds(s, i);
                lemma_path_at_is_path(s, i + 2);
                lemma_segments_from_well_formed(s, end);
                let rest = segments_from(s, end);
                let all = seq![SegmentView::Expression(path)] + rest;
                assert forall|k: int| 0 <= k < all.len() implies (match #[trigger] all[k] {
                    SegmentView::Expression(p) => is_path(p),
                    SegmentView::Literal(_) => true,
                }) by {
                    if k > 0 {
                        assert(all[k] == rest[k - 1]);
                    }
                }
            },
            None => {
                let end = literal_end(s, i + 1);
                lemma_literal_end_bounds(s, i + 1);
                lemma_segments_from_well_formed(s, end);
                let rest = segments_from(s, end);
                let all = seq![SegmentView::Literal(s.subrange(i, end))] + rest;
                assert forall|k: int| 0 <= k < all.len() implies (match #[trigger] all[k] {
                    SegmentView::Expression(p) => is_path(p),
                    SegmentView::Literal(_) => true,
                }) by {
                    if k > 0 {
                        assert(all[k] == rest[k - 1]);
                    }
                }
            },
        }
    }
}

/// Every expression of a parsed template has a path of one name or more.
pub proof fn lemma_parsed_is_well_formed(s: Seq<char>)
    ensures
        well_formed(segments_of(s)),
{
    lemma_segments_from_well_formed(s, 0);
}

/// A template without expressions, written out again, is the text it was
/// parsed from.
pub proof fn lemma_literal_template_round_trip(s: Seq<char>)
    requires
        all_literal(segments_of(s)),
    ensures
        segments_of(s) == seq![SegmentView::Literal(s)],
        rendered(segments_of(s)) == s,
{
    let whole = seq![SegmentView::Literal(s)];
    if s.len() == 0 {
        assert(s =~= Seq::<char>::empty());
    } else {
        let segments = segments_from(s, 0);
        if expression_at(s, 0) is Some {
            assert(segments[0] is Expression);
        }
        let end = literal_end(s, 1);
        lemma_literal_end_bounds(s, 1);
        if end < s.len() {
            assert(segments_from(s, end)[0] is Expression);
            assert(segments[1] is Expression);
        }
        assert(s.subrange(0, end) =~= s);
        assert(segments =~= whole);
    }
    assert(whole.drop_last() =~= Seq::<SegmentView>::empty());
    assert(rendered(whole.drop_last()) =~= Seq::<char>::empty());
    assert(rendered_segment(whole.last()) == s);
    assert(rendered(whole) =~= s);
}

fn letter(c: char) -> (r: bool)
    ensures
        r == is_letter(c),
{
    (c >= 'a' && c <= 'z') || (c >= 'A' && c <= 'Z')
}

fn name_char(c: char) -> (r: bool)
    ensures
        r == is_name_char(c),
{
    letter(c) || (c >= '0' && c <= '9') || c == '_'
}

fn blank(c: char) -> (r: bool)
    ensures
        r == is_blank(c),
{
    c == ' ' || c == '\t' || c == '\n' || c == '\r'
}

fn scan_blanks(chars: &Vec<char>, i: usize) -> (r: usize)
    requires
        i <= chars.len(),
    ensures
        r == skip_blanks(chars@, i as int),
        i <= r <= chars.len(),
{
    let mut j = i;
    while j < chars.len() && blank(chars[j])
        invariant
            i <= j <= chars.len(),
            skip_blanks(chars@, i as int) == skip_blanks(chars@, j as int),
        decreases chars.len() - j,
    {
        j += 1;
    }
    j
}

fn scan_name(chars: &Vec<char>, i: usize) -> (r: usize)
    requires
        i <= chars.len(),
    ensures
        r == name_end(chars@, i as int),
        i <= r <= chars.len(),
{
    let mut j = i;
    while j < chars.len() && name_char(chars[j])
        invariant
            i <= j <= chars.len(),
            name_end(chars@, i as int) == name_end(chars@, j as int),
        decreases chars.len() - j,
    {
        j += 1;
    }
    j
}

fn scan_path(text: &str, chars: &Vec<char>, i: usize) -> (r: Option<(Vec<String>, usize)>)
    requires
        chars@ == text@,
        i <= chars.len(),
    ensures
        match r {
            Some((path, end)) => path_at(chars@, i as int) == Some((deep(path@), end as int))
                && end <= chars.len(),
            None => path_at(chars@, i as int) is None,
        },
    decreases chars.len() - i,
{
    let a = scan_blanks(chars, i);
    if a < chars.len() && letter(chars[a]) {
        let b = scan_name(chars, a);
        let c = scan_blanks(chars, b);
        let name = String::from_str(text.substring_char(a, b));
        if c < chars.len() && chars[c] == '.' {
            match scan_path(text, chars, c + 1) {
                Some((mut rest, end)) => {
                    let ghost before = rest@;
                    rest.insert(0, name);
                    proof {
                        assert(deep(rest@) =~= seq![name@] + deep(before));
                    }
                    Some((rest, end))
                },
                None => None,
            }
        } else {
            let mut path: Vec<String> = Vec::new();
            path.push(name);
            proof {
                assert(deep(path@) =~= seq![name@]);
            }
            Some((path, c))
        }
    } else {
        None
    }
}

fn scan_expression(text: &str, chars: &Vec<char>, i: usize) -> (r: Option<(Vec<String>, usize)>)
    requires
        chars@ == text@,
        i <= chars.len(),
    ensures
        match r {
            Some((path, end)) => expression_at(chars@, i as int) == Some(
                (deep(path@), end as int),
            ) && i < end <= chars.len(),
            None => expression_at(chars@, i as int) is None,
        },
{
    let n = chars.len();
    if n - i >= 2 && chars[i] == '{' && chars[i + 1] == '{' {
        match scan_path(text, chars, i + 2) {
            Some((path, end)) => {
                if n - end >= 2 && chars[end] == '}' && chars[end + 1] == '}' {
                    proof {
                        lemma_expression_at_bounds(chars@, i as int);
                    }
                    Some((path, end + 2))
                } else {
                    None
                }
            },
            None => None,
        }
    } else {
        None
    }
}

impl Mustache {
    /// Cuts a template text into its segments. Every text is a template: what
    /// is not a well-formed expression is literal text.
    pub fn parse(text: &str) -> (r: Mustache)
        ensures
            r@ == segments_of(text@),
            r@.len() > 0,
            well_formed(r@),
    {
        proof {
            lemma_parsed_is_well_formed(text@);
        }
        let chars = chars_of(text);
        let n = chars.len();
        let mut out: Vec<Segment> = Vec::new();
        if n == 0 {
            let empty = Segment::Literal(String::new());
            out.push(empty);
            proof {
                assert(deep(out@) =~= seq![SegmentView::Literal(Seq::empty())]);
            }
            return Mustache { segments: out };
        }
        let mut i: usize = 0;
        while i < n
            invariant
                i <= n,
                n == chars.len(),
                chars@ == text@,
                segments_from(chars@, 0) == deep(out@) + segments_from(chars@, i as int),
                i > 0 ==> out.len() > 0,
            decreases n - i,
        {
            let ghost before = out@;
            match scan_expression(text, &chars, i) {
                Some((path, end)) => {
                    let segment = Segment::Expression(path);
                    out.push(segment);
                    proof {
                        lemma_deep_push(before, segment);
                        assert(deep(out@) + segments_from(chars@, end as int) =~= deep(before) + (
                        seq![segment@] + segments_from(chars@, end as int)));
                    }
                    i = end;
                },
                None => {
                    let mut j: usize = i + 1;
                    loop
                        invariant_except_break
                            i < j <= n,
                            literal_end(chars@, i + 1) == literal_end(chars@, j as int),
                        invariant
                            n == chars.len(),
                            chars@ == text@,
                            i < n,
                        ensures
                            i < j <= n,
                            j == literal_end(chars@, i + 1),
                        decreases n - j,
                    {
                        if j >= n {
                            break ;
                        }
                        let probe = scan_expression(text, &chars, j);
                        if probe.is_some() {
                            break ;
                        }
                        j += 1;
                    }
                    let segment = Segment::Literal(String::from_str(text.substring_char(i, j)));
                    out.push(segment);
                    proof {
                        lemma_deep_push(before, segment);
                        assert(deep(out@) + segments_from(chars@, j as int) =~= deep(before) + (
                        seq![segment@] + segments_from(chars@, j as int)));
                    }
                    i = j;
                },
            }
        }
        Mustache { segments: out }
    }

    /// The template as text: literals as they are, expressions as `{{a.b}}`.
    pub fn to_string(&self) -> (r: String)
        ensures
            r@ == rendered(self@),
    {
        let mut out = String::new();
        let mut i: usize = 0;
        while i < self.segments.len()
            invariant
                i <= self.segments.len(),
                out@ == rendered(self@.take(i as int)),
            decreases self.segments.len() - i,
        {
            proof {
                assert(self@.take(i as int + 1).drop_last() =~= self@.take(i as int));
                assert(self@.take(i as int + 1).last() == self.segments[i as int]@);
            }
            match &self.segments[i] {
                Segment::Literal(text) => {
                    out.append(text.as_str());
                },
                Segment::Expression(path) => {
                    let inner = join(path, ".");
                    out.append("{{");
                    out.append(inner.as_str());
                    out.append("}}");
                    proof {
                        assert(out@ =~= rendered(self@.take(i as int)) + ("{{"@ + joined(
                            deep(path@),
                            "."@,
                        ) + "}}"@));
                    }
                },
            }
            i += 1;
        }
        proof {
            assert(self@.take(self.segments.len() as int) =~= self@);
        }
        out
    }

    /// Whether the template holds no expression.
    pub fn is_const(&self) -> (r: bool)
        ensures
            r == all_literal(self@),
    {
        let mut i: usize = 0;
        while i < self.segments.len()
            invariant
                i <= self.segments.len(),
                all_literal(self@.take(i as int)),
            decreases self.segments.len() - i,
        {
            match &self.segments[i] {
                Segment::Literal(_) => {},
                Segment::Expression(_) => {
                    assert(self@[i as int] is Expression);
                    return false;
                },
            }
            proof {
                assert forall|k: int| 0 <= k < i + 1 implies (#[trigger] self@.take(
                    i as int + 1,
                )[k]) is Literal by {
                    if k < i {
                        assert(self@.take(i as int)[k] is Literal);
                    }
                }
            }
            i += 1;
        }
        proof {
            assert(self@.take(self.segments.len() as int) =~= self@);
        }
        true
    }
}

} // verus!
