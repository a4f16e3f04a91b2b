//! A text template: an output-path directive on the first non-empty line,
//! followed by the body that is to be written under that path.

use vstd::prelude::*;

use crate::config::{spec_apply, Config};
use crate::text::{chars_of, is_space, is_space_char, spec_trim, string_of, subvec, trim_chars};

verus! {

/// Index of the first line feed in `s`, or `s.len()` if there is none.
pub open spec fn first_nl(s: Seq<char>) -> int
    decreases s.len(),
{
    if s.len() == 0 {
        0
    } else if s[0] == '\n' {
        0
    } else {
        1 + first_nl(s.drop_first())
    }
}

/// A line with its terminator's carriage return removed, so that `"\r\n"`
/// endings read like plain `"\n"` ones.
pub open spec fn strip_cr(l: Seq<char>) -> Seq<char> {
    if l.len() > 0 && l.last() == '\r' {
        l.drop_last()
    } else {
        l
    }
}

/// The lines of `s`, split at `"\n"` or `"\r\n"`, the final line ending
/// optional, as `str::lines` yields them.
pub open spec fn spec_lines(s: Seq<char>) -> Seq<Seq<char>>
    decreases s.len(),
{
    if s.len() == 0 {
        Seq::empty()
    } else {
        let i = first_nl(s);
        if !(0 <= i < s.len()) {
            seq![s]
        } else {
            seq![strip_cr(s.take(i))] + spec_lines(s.skip(i + 1))
        }
    }
}

/// All lines joined back together, a line feed appended to every one of
/// them, the last included.
pub open spec fn spec_join_nl(ls: Seq<Seq<char>>) -> Seq<char>
    decreases ls.len(),
{
    if ls.len() == 0 {
        Seq::empty()
    } else {
        spec_join_nl(ls.drop_last()) + ls.last() + seq!['\n']
    }
}

/// Index of the first non-empty line, or `ls.len()` if every line is empty.
pub open spec fn first_filled(ls: Seq<Seq<char>>) -> int
    decreases ls.len(),
{
    if ls.len() == 0 {
        0
    } else if ls[0].len() > 0 {
        0
    } else {
        1 + first_filled(ls.drop_first())
    }
}

proof fn lemma_first_nl_is(s: Seq<char>, d: int)
    requires
        0 <= d <= s.len(),
        forall|m: int| 0 <= m < d ==> s[m] != '\n',
        d < s.len() ==> s[d] == '\n',
    ensures
        first_nl(s) == d,
    decreases d,
{
    if d == 0 {
        if s.len() > 0 && s[0] != '\n' {
            assert(d < s.len() && s[d] != '\n');
        }
    } else {
        lemma_first_nl_is(s.drop_first(), d - 1);
    }
}

proof fn lemma_first_filled_is(ls: Seq<Seq<char>>, d: int)
    requires
        0 <= d <= ls.len(),
        forall|m: int| 0 <= m < d ==> ls[m].len() == 0,
        d < ls.len() ==> ls[d].len() > 0,
    ensures
        first_filled(ls) == d,
    decreases d,
{
    if d == 0 {
        if ls.len() > 0 && ls[0].len() == 0 {
            assert(d < ls.len() && ls[d].len() == 0);
        }
    } else {
        lemma_first_filled_is(ls.drop_first(), d - 1);
    }
}

/// Splits `v` into its lines.
pub fn split_lines(v: &Vec<char>) -> (r: Vec<Vec<char>>)
    ensures
        r.deep_view() == spec_lines(v@),
{
    let n = v.len();
    let mut r: Vec<Vec<char>> = Vec::new();
    let mut start: usize = 0;
    let mut i: usize = 0;
    proof {
        assert(v@.skip(0) =~= v@);
        assert(r.deep_view() =~= Seq::<Seq<char>>::empty());
    }
    while i < n
        invariant
            start <= i <= n,
            n == v@.len(),
            spec_lines(v@) == r.deep_view() + spec_lines(v@.skip(start as int)),
            forall|m: int| start <= m < i ==> v@[m] != '\n',
        decreases n - i,
    {
        if v[i] == '\n' {
            let line_end = if i > start && v[i - 1] == '\r' {
                i - 1
            } else {
                i
            };
            let ghost prev = r.deep_view();
            let line = subvec(v, start, line_end);
            r.push(line);
            proof {
                let t = v@.skip(start as int);
                lemma_first_nl_is(t, i - start);
                assert(t.take(i - start) =~= v@.subrange(start as int, i as int));
                assert(t.skip(i - start + 1) =~= v@.skip(i + 1));
                assert(line@ =~= strip_cr(v@.subrange(start as int, i as int)));
                assert(line.deep_view() =~= line@);
                assert(r.deep_view() =~= prev.push(line@));
                assert(r.deep_view() + spec_lines(v@.skip(i + 1)) =~= prev + spec_lines(t));
            }
            start = i + 1;
        }
        i = i + 1;
    }
    if start < n {
        let ghost prev = r.deep_view();
        let line = subvec(v, start, n);
        r.push(line);
        proof {
            let t = v@.skip(start as int);
            lemma_first_nl_is(t, n - start);
            assert(line@ =~= t);
            assert(line.deep_view() =~= line@);
            assert(spec_lines(t) == seq![t]);
            assert(r.deep_view() =~= prev.push(line@));
            assert(r.deep_view() =~= prev + spec_lines(t));
        }
    } else {
        proof {
            assert(v@.skip(start as int) =~= Seq::<char>::empty());
            assert(r.deep_view() + spec_lines(v@.skip(start as int)) =~= r.deep_view());
        }
    }
    r
}

/// Joins the lines of `r` from index `from` on, a line feed after each.
fn join_lines_from(r: &Vec<Vec<char>>, from: usize) -> (out: Vec<char>)
    requires
        from <= r@.len(),
    ensures
        out@ == spec_join_nl(r.deep_view().skip(from as int)),
{
    let ghost dv = r.deep_view();
    let ghost rest = dv.skip(from as int);
    let mut out: Vec<char> = Vec::new();
    let mut m: usize = from;
    proof {
        assert(out@ =~= spec_join_nl(rest.take(0)));
    }
    while m < r.len()
        invariant
            from <= m <= r@.len(),
            dv == r.deep_view(),
            rest == dv.skip(from as int),
            out@ == spec_join_nl(rest.take(m - from)),
        decreases r@.len() - m,
    {
        out.extend_from_slice(r[m].as_slice());
        out.push('\n');
        proof {
            let taken = rest.take(m - from + 1);
            assert(taken.drop_last() =~= rest.take(m - from));
            assert(taken.last() == dv[m as int]);
            assert(dv[m as int] =~= r@[m as int]@);
            assert(out@ =~= spec_join_nl(rest.take(m - from)) + r@[m as int]@ + seq!['\n']);
        }
        m = m + 1;
    }
    proof {
        assert(rest.take(r@.len() - from) =~= rest);
    }
    out
}

/// Why a template text cannot be parsed.
#[derive(Clone, Copy, Debug, PartialEq, Eq, Structural)]
pub enum TemplateError {
    /// No usable path-directive line: the text has no non-empty line, or
    /// nothing remains of the directive once the marker is stripped.
    UnexpectedEndOfInput,
    /// The first non-empty line does not begin with the `#` path marker.
    MissingPathMarker,
}

/// The mathematical content of a [`Template`]: its relative output path
/// and its body.
#[verifier::ext_equal]
pub struct TemplateView {
    pub path: Seq<char>,
    pub content: Seq<char>,
}

/// How a template text splits into path and body.  The first non-empty
/// line, trimmed, must carry a leading `#`; what follows the marker,
/// trimmed again, is the path and must be non-empty.  Every later line,
/// with a line feed appended, forms the body.
pub open spec fn spec_parse(s: Seq<char>) -> Result<TemplateView, TemplateError> {
    let ls = spec_lines(s);
    let j = first_filled(ls);
    if !(0 <= j < ls.len()) {
        Err(TemplateError::UnexpectedEndOfInput)
    } else {
        let line = spec_trim(ls[j]);
        if line.len() == 0 || line[0] != '#' {
            Err(TemplateError::MissingPathMarker)
        } else {
            let p = spec_trim(line.drop_first());
            if p.len() == 0 {
                Err(TemplateError::UnexpectedEndOfInput)
            } else {
                Ok(TemplateView { path: p, content: spec_join_nl(ls.skip(j + 1)) })
            }
        }
    }
}

/// A parsed template: a relative output path and the body to write there.
#[derive(Debug)]
pub struct Template {
    path: String,
    content: String,
}

impl View for Template {
    type V = TemplateView;

    closed spec fn view(&self) -> TemplateView {
        TemplateView { path: self.path@, content: self.content@ }
    }
}

impl Template {
    /// A template made of the given path and content.
    pub fn new(path: &str, content: &str) -> (t: Template)
        ensures
            t@.path == path@,
            t@.content == content@,
    {
        Template { path: path.to_owned(), content: content.to_owned() }
    }

    /// The relative path the body is to be written under.
    pub fn path(&self) -> (r: &String)
        ensures
            r@ == self@.path,
    {
        &self.path
    }

    /// The body to write.
    pub fn content(&self) -> (r: &String)
        ensures
            r@ == self@.content,
    {
        &self.content
    }

    /// Applies `config` to the raw text, then parses what results into a
    /// template; placeholders may therefore stand in the path line itself.
    pub fn from_str(content: &str, config: &Config) -> (r: Result<Template, TemplateError>)
        ensures
            ({
                let applied = spec_apply(config@, content@);
                match r {
                    Ok(t) => spec_parse(applied) == Ok::<TemplateView, TemplateError>(t@),
                    Err(e) => spec_parse(applied) == Err::<TemplateView, TemplateError>(e),
                }
            }),
    {
        let applied = config.apply(content);
        let av = chars_of(applied.as_str());
        let ls = split_lines(&av);
        let ghost lsv = ls.deep_view();
        let n = ls.len();
        let mut j: usize = 0;
        while j < n && ls[j].len() == 0
            invariant
                j <= n,
                n == ls@.len(),
                lsv == ls.deep_view(),
                forall|m: int| 0 <= m < j ==> lsv[m].len() == 0,
            decreases n - j,
        {
            j = j + 1;
        }
        proof {
            lemma_first_filled_is(lsv, j as int);
        }
        if j == n {
            return Err(TemplateError::UnexpectedEndOfInput);
        }
        let line = trim_chars(&ls[j]);
        proof {
            assert(lsv[j as int] =~= ls@[j as int]@);
        }
        if line.len() == 0 {
            return Err(TemplateError::MissingPathMarker);
        }
        if line[0] != '#' {
            return Err(TemplateError::MissingPathMarker);
        }
        let rest = subvec(&line, 1, line.len());
        let p = trim_chars(&rest);
        proof {
            assert(rest@ =~= spec_trim(lsv[j as int]).drop_first());
        }
        if p.len() == 0 {
            return Err(TemplateError::UnexpectedEndOfInput);
        }
        let body = join_lines_from(&ls, j + 1);
        let t = Template { path: string_of(&p), content: string_of(&body) };
        proof {
            assert(spec_parse(av@) == Ok::<TemplateView, TemplateError>(t@));
        }
        Ok(t)
    }

    /// The content with every white-space character removed; equality of
    /// templates compares contents through this normal form.
    pub fn clean_content(&self) -> (r: String)
        ensures
            r@ == spec_clean(self@.content),
    {
        let cv = chars_of(self.content.as_str());
        let mut out: Vec<char> = Vec::new();
        let mut i: usize = 0;
        proof {
            assert(cv@.take(0) =~= Seq::<char>::empty());
        }
        while i < cv.len()
            invariant
                i <= cv@.len(),
                out@ == spec_clean(cv@.take(i as int)),
            decreases cv@.len() - i,
        {
            let ghost taken = cv@.take(i + 1);
            proof {
                assert(taken.drop_last() =~= cv@.take(i as int));
            }
            if !is_space_char(cv[i]) {
                out.push(cv[i]);
            }
            i = i + 1;
        }
        proof {
            assert(cv@.take(cv@.len() as int) =~= cv@);
        }
        string_of(&out)
    }
}

/// The content of `s` with every white-space character removed.
pub open spec fn spec_clean(s: Seq<char>) -> Seq<char>
    decreases s.len(),
{
    if s.len() == 0 {
        Seq::empty()
    } else if is_space(s.last()) {
        spec_clean(s.drop_last())
    } else {
        spec_clean(s.drop_last()) + seq![s.last()]
    }
}

impl PartialEq for Template {
    fn eq(&self, other: &Template) -> (r: bool) {
        let pe = self.path == other.path;
        let ce = self.clean_content() == other.clean_content();
        pe && ce
    }
}

impl vstd::std_specs::cmp::PartialEqSpecImpl for Template {
    open spec fn obeys_eq_spec() -> bool {
        true
    }

    open spec fn eq_spec(&self, other: &Template) -> bool {
        self@.path == other@.path && spec_clean(self@.content) == spec_clean(other@.content)
    }
}

/// Index of the first line that is not blank (whose trimmed form is
/// non-empty), or `ls.len()` if every line is blank.
pub open spec fn first_unblank(ls: Seq<Seq<char>>) -> int
    decreases ls.len(),
{
    if ls.len() == 0 {
        0
    } else if spec_trim(ls[0]).len() > 0 {
        0
    } else {
        1 + first_unblank(ls.drop_first())
    }
}

proof fn lemma_first_unblank_props(ls: Seq<Seq<char>>)
    ensures
        0 <= first_unblank(ls) <= ls.len(),
        forall|m: int| 0 <= m < first_unblank(ls) ==> spec_trim(#[trigger] ls[m]).len() == 0,
        first_unblank(ls) < ls.len() ==> spec_trim(ls[first_unblank(ls)]).len() > 0,
    decreases ls.len(),
{
    if ls.len() == 0 || spec_trim(ls[0]).len() > 0 {
    } else {
        lemma_first_unblank_props(ls.drop_first());
        assert forall|m: int|
            0 <= m < first_unblank(ls) implies spec_trim(#[trigger] ls[m]).len() == 0 by {
            if m > 0 {
                assert(ls[m] == ls.drop_first()[m - 1]);
            }
        }
    }
}

proof fn lemma_first_filled_props(ls: Seq<Seq<char>>)
    ensures
        0 <= first_filled(ls) <= ls.len(),
        forall|m: int| 0 <= m < first_filled(ls) ==> (#[trigger] ls[m]).len() == 0,
        first_filled(ls) < ls.len() ==> ls[first_filled(ls)].len() > 0,
    decreases ls.len(),
{
    if ls.len() == 0 || ls[0].len() > 0 {
    } else {
        lemma_first_filled_props(ls.drop_first());
        assert forall|m: int|
            0 <= m < first_filled(ls) implies (#[trigger] ls[m]).len() == 0 by {
            if m > 0 {
                assert(ls[m] == ls.drop_first()[m - 1]);
            }
        }
    }
}

/// If the text has a non-blank line and its first non-blank line, once
/// trimmed, does not start with the `#` marker, parsing fails with
/// `MissingPathMarker`.
pub proof fn lemma_parse_missing_marker(s: Seq<char>)
    requires
        first_unblank(spec_lines(s)) < spec_lines(s).len(),
        spec_trim(spec_lines(s)[first_unblank(spec_lines(s))])[0] != '#',
    ensures
        spec_parse(s) == Err::<TemplateView, TemplateError>(TemplateError::MissingPathMarker),
{
    let ls = spec_lines(s);
    let jb = first_unblank(ls);
    let j = first_filled(ls);
    lemma_first_unblank_props(ls);
    lemma_first_filled_props(ls);
    assert(ls[jb].len() > 0);
    assert(j <= jb) by {
        if jb < j {
            assert(ls[jb].len() == 0);
        }
    }
    assert(j < ls.len());
    let line = spec_trim(ls[j]);
    if line.len() > 0 {
        assert(jb <= j) by {
            if j < jb {
                assert(spec_trim(ls[j]).len() == 0);
            }
        }
        assert(j == jb);
        assert(line[0] != '#');
    }
}

/// Any text all of whose lines are empty fails to parse, with
/// `UnexpectedEndOfInput`.
pub proof fn lemma_parse_no_lines(s: Seq<char>)
    requires
        forall|m: int| 0 <= m < spec_lines(s).len() ==> spec_lines(s)[m].len() == 0,
    ensures
        spec_parse(s) == Err::<TemplateView, TemplateError>(TemplateError::UnexpectedEndOfInput),
{
    lemma_first_filled_is(spec_lines(s), spec_lines(s).len() as int);
}

} // verus!
