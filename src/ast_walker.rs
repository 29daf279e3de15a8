//! Finds the public functions and methods of one source file whose body
//! holds a risk word while their documentation does not mention panics.

use vstd::prelude::*;
use vstd::string::StringExecFns;
use crate::line_index::{doc_block, has_risk_word, lines, span_has_risk, text_has_risk, SourceText};
use crate::syntax::{is_public, parse_declarations, syntax_of, Decl, LineSpan, Member, Vis};
use crate::text::{chars_of, contains, contains_in};

verus! {

/// What `str::to_lowercase` makes of a text.
pub uninterp spec fn lowercase_of(s: Seq<char>) -> Seq<char>;

/// Relies on str::to_lowercase: the result depends on the characters alone,
/// and an empty text stays empty.
#[verifier::external_body]
fn to_lowercase(s: &str) -> (r: String)
    ensures
        r@ == lowercase_of(s@),
        s@.len() == 0 ==> r@.len() == 0,
{
    s.to_lowercase()
}

/// The decimal digits of `n`, most significant first.
pub open spec fn decimal(n: nat) -> Seq<char>
    decreases n,
{
    if n < 10 {
        seq![digit(n)]
    } else {
        decimal(n / 10) + seq![digit(n % 10)]
    }
}

pub open spec fn digit(d: nat) -> char {
    if d == 0 { '0' } else if d == 1 { '1' } else if d == 2 { '2' } else if d == 3 { '3' }
    else if d == 4 { '4' } else if d == 5 { '5' } else if d == 6 { '6' } else if d == 7 { '7' }
    else if d == 8 { '8' } else { '9' }
}

/// The decimal digit `d` as text.
fn digit_text(d: usize) -> (r: &'static str)
    requires
        d < 10,
    ensures
        r@ =~= seq![digit(d as nat)],
{
    if d == 0 {
        proof {
            reveal_strlit("0");
        }
        "0"
    } else if d == 1 {
        proof {
            reveal_strlit("1");
        }
        "1"
    } else if d == 2 {
        proof {
            reveal_strlit("2");
        }
        "2"
    } else if d == 3 {
        proof {
            reveal_strlit("3");
        }
        "3"
    } else if d == 4 {
        proof {
            reveal_strlit("4");
        }
        "4"
    } else if d == 5 {
        proof {
            reveal_strlit("5");
        }
        "5"
    } else if d == 6 {
        proof {
            reveal_strlit("6");
        }
        "6"
    } else if d == 7 {
        proof {
            reveal_strlit("7");
        }
        "7"
    } else if d == 8 {
        proof {
            reveal_strlit("8");
        }
        "8"
    } else {
        proof {
            reveal_strlit("9");
        }
        "9"
    }
}

/// `n` in decimal.
fn decimal_text(n: usize) -> (r: String)
    ensures
        r@ == decimal(n as nat),
    decreases n,
{
    if n < 10 {
        String::from_str(digit_text(n))
    } else {
        let mut r = decimal_text(n / 10);
        r.append(digit_text(n % 10));
        r
    }
}

/// The word a documentation block must hold to warn about panics.
pub open spec fn panic_word() -> Seq<char> {
    seq!['p', 'a', 'n', 'i', 'c']
}

/// A case-folded documentation block warns about panics.
pub open spec fn warns(comment: Seq<char>) -> bool {
    comment.len() > 0 && contains(comment, panic_word())
}

pub open spec fn separator() -> Seq<char> {
    seq![':', ':']
}

/// `name` prefixed by the enclosing path, if any.
pub open spec fn qualify(prefix: Option<Seq<char>>, name: Seq<char>) -> Seq<char> {
    match prefix {
        Some(p) => p + separator() + name,
        None => name,
    }
}

/// A finding as plain values: qualified name, first and last line.
pub type LocationView = (Seq<char>, int, int);

/// The documentation block of a risky declaration over `span` warns about
/// panics: it is not empty and, case-folded, it holds the word `panic`.
pub open spec fn documented(s: Seq<char>, span: LineSpan) -> bool {
    let doc = doc_block(s, span.start_line as int, span.end_line as int);
    doc.len() > 0 && warns(lowercase_of(doc))
}

/// The finding for a risky declaration over `span`, unless its documentation
/// warns about panics; a declaration without documentation is reported.
pub open spec fn report(s: Seq<char>, span: LineSpan, name: Seq<char>) -> Seq<LocationView> {
    if documented(s, span) {
        seq![]
    } else {
        seq![(name, span.start_line as int, span.end_line as int)]
    }
}

pub open spec fn spans_risk(s: Seq<char>, span: LineSpan) -> bool {
    span_has_risk(s, span.start_line as int, span.end_line as int)
}

/// The finding for one member of a trait or impl block named `owner`.
pub open spec fn member_findings(s: Seq<char>, prefix: Option<Seq<char>>, owner: Seq<char>, m: Member) -> Seq<LocationView> {
    match m {
        Member::Method(method) => match method.body {
            Some(body) => if spans_risk(s, body) {
                report(s, method.span, qualify(prefix, owner + separator() + method.ident@))
            } else {
                seq![]
            },
            None => seq![],
        },
        Member::Other => seq![],
    }
}

/// The findings for the members of a trait or impl block, in order.
pub open spec fn members_findings(s: Seq<char>, prefix: Option<Seq<char>>, owner: Seq<char>, ms: Seq<Member>) -> Seq<LocationView>
    decreases ms.len(),
{
    if ms.len() == 0 {
        seq![]
    } else {
        members_findings(s, prefix, owner, ms.drop_last()) + member_findings(s, prefix, owner, ms.last())
    }
}

/// The findings for one declaration under the enclosing path `prefix`.
pub open spec fn decl_findings(s: Seq<char>, prefix: Option<Seq<char>>, d: Decl) -> Seq<LocationView>
    decreases d,
{
    if !spans_risk(s, d.span()) {
        seq![]
    } else {
        match d {
            Decl::Namespace { vis, ident, items, .. } => match items {
                Some(v) => if vis == Vis::Public {
                    decls_findings(s, Some(qualify(prefix, ident@)), v@)
                } else {
                    seq![]
                },
                None => seq![],
            },
            Decl::Function { vis, ident, span, body } => if vis == Vis::Public && spans_risk(s, body) {
                report(s, span, qualify(prefix, ident@))
            } else {
                seq![]
            },
            Decl::TraitDefinition { vis, ident, members, .. } => if vis == Vis::Public {
                members_findings(s, prefix, ident@, members@)
            } else {
                seq![]
            },
            Decl::ImplementationBlock { self_ty, members, .. } => members_findings(
                s,
                prefix,
                self_ty@,
                members@,
            ),
            _ => seq![],
        }
    }
}

/// The findings for a sequence of declarations, in order.
pub open spec fn decls_findings(s: Seq<char>, prefix: Option<Seq<char>>, ds: Seq<Decl>) -> Seq<LocationView>
    decreases ds,
{
    if ds.len() == 0 {
        seq![]
    } else {
        decls_findings(s, prefix, ds.subrange(0, ds.len() - 1)) + decl_findings(s, prefix, ds[ds.len() - 1])
    }
}


/// The findings of a whole source text: none if no line holds a risk word or
/// if the text does not parse; otherwise those of its declarations.
pub open spec fn findings_of(s: Seq<char>) -> Seq<LocationView> {
    if !text_has_risk(s) {
        seq![]
    } else {
        match syntax_of(s) {
            Some(decls) => decls_findings(s, None, decls@),
            None => seq![],
        }
    }
}

/// No line of the lines `start_line ..= end_line` of `s` holds a risk word.
pub open spec fn risk_free(s: Seq<char>, span: LineSpan) -> bool {
    forall|k: int|
        span.start_line - 1 <= k < span.end_line && 0 <= k < lines(s).len() ==> !has_risk_word(
            #[trigger] lines(s)[k],
        )
}

/// A declaration whose whole text holds no risk word yields no finding,
/// neither for itself nor for anything nested in it.
pub proof fn lemma_risk_free_declaration(s: Seq<char>, prefix: Option<Seq<char>>, d: Decl)
    requires
        risk_free(s, d.span()),
    ensures
        decl_findings(s, prefix, d) == Seq::<LocationView>::empty(),
{
    assert(!spans_risk(s, d.span()));
}

/// A public function whose body holds a risk word and whose documentation
/// block is not empty and, case-folded, holds the word `panic` yields no
/// finding.
pub proof fn lemma_documented_function(
    s: Seq<char>,
    prefix: Option<Seq<char>>,
    ident: String,
    span: LineSpan,
    body: LineSpan,
)
    requires
        spans_risk(s, body),
        doc_block(s, span.start_line as int, span.end_line as int).len() > 0,
        warns(lowercase_of(doc_block(s, span.start_line as int, span.end_line as int))),
    ensures
        decl_findings(s, prefix, Decl::Function { vis: Vis::Public, ident, span, body })
            == Seq::<LocationView>::empty(),
{
}

/// A top-level public function whose body holds a risk word, and which has
/// no documentation block or one that, case-folded, does not hold the word
/// `panic`, yields one finding, named by its identifier.
pub proof fn lemma_undocumented_function(s: Seq<char>, ident: String, span: LineSpan, body: LineSpan)
    requires
        span.start_line <= body.start_line,
        body.end_line <= span.end_line,
        spans_risk(s, body),
        doc_block(s, span.start_line as int, span.end_line as int).len() == 0 || !warns(
            lowercase_of(doc_block(s, span.start_line as int, span.end_line as int)),
        ),
    ensures
        decl_findings(s, None, Decl::Function { vis: Vis::Public, ident, span, body }) == seq![
            (ident@, span.start_line as int, span.end_line as int),
        ],
{
    let d = Decl::Function { vis: Vis::Public, ident, span, body };
    assert(spans_risk(s, d.span()));
}

/// The findings of each declaration stand, in one piece, among those of any
/// sequence of declarations that holds it.
pub proof fn lemma_findings_include(s: Seq<char>, prefix: Option<Seq<char>>, ds: Seq<Decl>, i: int)
    requires
        0 <= i < ds.len(),
    ensures
        exists|off: int|
            0 <= off && off + decl_findings(s, prefix, ds[i]).len() <= decls_findings(
                s,
                prefix,
                ds,
            ).len() && #[trigger] decls_findings(s, prefix, ds).subrange(
                off,
                off + decl_findings(s, prefix, ds[i]).len(),
            ) == decl_findings(s, prefix, ds[i]),
    decreases ds.len(),
{
    let init = ds.subrange(0, ds.len() - 1);
    let all = decls_findings(s, prefix, ds);
    let mine = decl_findings(s, prefix, ds[i]);
    assert(all == decls_findings(s, prefix, init) + decl_findings(s, prefix, ds[ds.len() - 1]));
    if i == ds.len() - 1 {
        let off = decls_findings(s, prefix, init).len() as int;
        assert(all.subrange(off, off + mine.len()) =~= mine);
    } else {
        lemma_findings_include(s, prefix, init, i);
        assert(init[i] == ds[i]);
        let off = choose|off: int|
            0 <= off && off + mine.len() <= decls_findings(s, prefix, init).len()
                && #[trigger] decls_findings(s, prefix, init).subrange(off, off + mine.len()) == mine;
        assert(all.subrange(off, off + mine.len()) =~= decls_findings(s, prefix, init).subrange(
            off,
            off + mine.len(),
        ));
    }
}

/// Such a top-level function is among the findings of its file.
pub proof fn lemma_undocumented_function_reported(s: Seq<char>, decls: Vec<Decl>, i: int)
    requires
        text_has_risk(s),
        syntax_of(s) == Some(decls),
        0 <= i < decls@.len(),
        decls@[i] matches Decl::Function { vis: Vis::Public, span, body, .. } && span.start_line
            <= body.start_line && body.end_line <= span.end_line && spans_risk(s, body) && !documented(s, span),
    ensures
        findings_of(s).contains(
            (decls@[i]->Function_ident@, decls@[i].span().start_line as int, decls@[i].span().end_line as int),
        ),
{
    let d = decls@[i];
    if let Decl::Function { vis, ident, span, body } = d {
        lemma_undocumented_function(s, ident, span, body);
        lemma_findings_include(s, None, decls@, i);
        let all = findings_of(s);
        let off = choose|off: int|
            0 <= off && off + decl_findings(s, None, d).len() <= all.len()
                && #[trigger] all.subrange(off, off + decl_findings(s, None, d).len())
                == decl_findings(s, None, d);
        assert(all.subrange(off, off + 1)[0] == all[off]);
    }
}

/// A public function or method that may panic without saying so.
pub struct PanicLocation {
    /// Qualified name, `::`-separated.
    pub ident: String,
    pub start_line: usize,
    pub end_line: usize,
}

impl View for PanicLocation {
    type V = LocationView;

    open spec fn view(&self) -> LocationView {
        (self.ident@, self.start_line as int, self.end_line as int)
    }
}

/// The plain values of a list of findings.
pub open spec fn locations(v: Seq<PanicLocation>) -> Seq<LocationView> {
    v.map_values(|p: PanicLocation| p@)
}

impl PanicLocation {
    /// The location as `"<name> <first line>:<last line>"`.
    pub fn render(&self) -> (r: String)
        ensures
            r@ == self.ident@ + seq![' '] + decimal(self.start_line as nat) + seq![':'] + decimal(
                self.end_line as nat,
            ),
    {
        let mut r = self.ident.clone();
        let space = " ";
        let colon = ":";
        proof {
            reveal_strlit(" ");
            reveal_strlit(":");
        }
        assert(space@ =~= seq![' ']);
        assert(colon@ =~= seq![':']);
        r.append(space);
        r.append(decimal_text(self.start_line).as_str());
        r.append(colon);
        r.append(decimal_text(self.end_line).as_str());
        r
    }
}

/// Whether some line of `source_code` holds one of the words `panic`,
/// `unwrap`, `expect`, `todo`, `unimplemented`. Comment lines are scanned
/// too, and leading whitespace does not matter.
pub fn contains_panicky_words(source_code: &str) -> (r: bool)
    ensures
        r == text_has_risk(source_code@),
{
    let text = SourceText::new(source_code);
    text.has_risk()
}

/// Whether a case-folded documentation block warns about panics: it is not
/// empty and holds the word `panic`.
pub fn warns_about_panics(comment: &str) -> (r: bool)
    ensures
        r == warns(comment@),
{
    let chars = chars_of(comment);
    let word = vec!['p', 'a', 'n', 'i', 'c'];
    assert(word@ =~= panic_word());
    assert(chars@.subrange(0, chars@.len() as int) =~= chars@);
    chars.len() > 0 && contains_in(&chars, 0, chars.len(), &word)
}

fn qualify_exec(prefix: &Option<String>, name: &str) -> (r: String)
    ensures
        r@ == qualify(
            match prefix {
                Some(p) => Some(p@),
                None => None,
            },
            name@,
        ),
{
    match prefix {
        Some(p) => {
            let mut r = p.clone();
            let sep = "::";
            proof {
                reveal_strlit("::");
            }
            assert(sep@ =~= separator());
            r.append(sep);
            r.append(name);
            r
        },
        None => String::from_str(name),
    }
}

pub open spec fn prefix_view(prefix: Option<String>) -> Option<Seq<char>> {
    match prefix {
        Some(p) => Some(p@),
        None => None,
    }
}

/// A source file, by name and text.
pub struct AstWalker {
    pub filename: String,
    pub source_code: String,
}

impl AstWalker {
    pub fn new_with_source(filename: String, source_code: String) -> (r: AstWalker)
        ensures
            r.filename@ == filename@,
            r.source_code@ == source_code@,
    {
        AstWalker { filename, source_code }
    }

    /// The findings of the file: none if no line holds a risk word or if the
    /// text does not parse; otherwise those of its declarations.
    pub fn process(&self) -> (r: Vec<PanicLocation>)
        ensures
            locations(r@) == findings_of(self.source_code@),
    {
        let mut result: Vec<PanicLocation> = Vec::new();
        if contains_panicky_words(self.source_code.as_str()) {
            if let Some(decls) = parse_declarations(self.source_code.as_str()) {
                return self.process_declarations(&decls);
            }
        }
        assert(locations(result@) =~= seq![]);
        result
    }

    /// The findings of the given declarations of this file, in order.
    pub fn process_declarations(&self, decls: &Vec<Decl>) -> (r: Vec<PanicLocation>)
        ensures
            locations(r@) == decls_findings(self.source_code@, None, decls@),
    {
        let text = SourceText::new(self.source_code.as_str());
        let mut result: Vec<PanicLocation> = Vec::new();
        assert(locations(result@) =~= seq![]);
        self.process_items(&text, decls, None, &mut result);
        assert(locations(result@) =~= seq![] + decls_findings(self.source_code@, None, decls@));
        result
    }

    fn process_items(
        &self,
        text: &SourceText,
        items: &Vec<Decl>,
        namespace: Option<String>,
        result: &mut Vec<PanicLocation>,
    )
        requires
            text.wf(),
            text.chars@ == self.source_code@,
        ensures
            locations(final(result)@) == locations(old(result)@) + decls_findings(
                self.source_code@,
                prefix_view(namespace),
                items@,
            ),
        decreases items,
    {
        let ghost s = self.source_code@;
        let ghost prefix = prefix_view(namespace);
        let ghost start = locations(result@);
        let mut i: usize = 0;
        while i < items.len()
            invariant
                text.wf(),
                text.chars@ == s,
                s == self.source_code@,
                prefix == prefix_view(namespace),
                i <= items@.len(),
                locations(result@) == start + decls_findings(s, prefix, items@.subrange(0, i as int)),
            decreases items@.len() - i,
        {
            let ghost before = locations(result@);
            let item = &items[i];
            let span = item.span();
            if text.span_has_risk(span.start_line, span.end_line) {
                match item {
                    Decl::Namespace { vis, ident, items: Some(children), .. } => {
                        if is_public(*vis) {
                            let name = qualify_exec(&namespace, ident.as_str());
                            assert(decreases_to!(items => items@[i as int]));
                            self.process_items(text, children, Some(name), result);
                        }
                    },
                    Decl::Function { vis, ident, span, body } => {
                        if is_public(*vis) && text.span_has_risk(body.start_line, body.end_line) {
                            let name = qualify_exec(&namespace, ident.as_str());
                            self.check_docs(text, name, *span, result);
                        }
                    },
                    Decl::TraitDefinition { vis, ident, members, .. } => {
                        if is_public(*vis) {
                            self.process_members(text, &namespace, ident.as_str(), members, result);
                        }
                    },
                    Decl::ImplementationBlock { self_ty, members, .. } => {
                        self.process_members(text, &namespace, self_ty.as_str(), members, result);
                    },
                    _ => {},
                }
            }
            proof {
                let ds = items@.subrange(0, i + 1);
                assert(ds.subrange(0, ds.len() - 1) =~= items@.subrange(0, i as int));
                assert(ds[ds.len() - 1] == items@[i as int]);
                assert(locations(result@) == before + decl_findings(s, prefix, items@[i as int]));
            }
            i = i + 1;
        }
        assert(items@.subrange(0, items@.len() as int) =~= items@);
    }

    /// Adds the finding for the declaration over `span`, named `name`,
    /// unless its documentation block warns about panics.
    fn check_docs(&self, text: &SourceText, name: String, span: LineSpan, result: &mut Vec<PanicLocation>)
        requires
            text.wf(),
            text.chars@ == self.source_code@,
        ensures
            locations(final(result)@) == locations(old(result)@) + report(self.source_code@, span, name@),
    {
        let doc = text.doc_comment(self.source_code.as_str(), span.start_line, span.end_line);
        let comment = to_lowercase(doc.as_str());
        let ghost before = result@;
        if !warns_about_panics(comment.as_str()) {
            result.push(PanicLocation { ident: name, start_line: span.start_line, end_line: span.end_line });
            assert(locations(result@) =~= locations(before) + report(self.source_code@, span, name@));
        } else {
            assert(locations(result@) =~= locations(before) + report(self.source_code@, span, name@));
        }
    }

    /// Adds the findings for the methods of a trait or impl block named
    /// `owner` whose body holds a risk word.
    fn process_members(
        &self,
        text: &SourceText,
        namespace: &Option<String>,
        owner: &str,
        members: &Vec<Member>,
        result: &mut Vec<PanicLocation>,
    )
        requires
            text.wf(),
            text.chars@ == self.source_code@,
        ensures
            locations(final(result)@) == locations(old(result)@) + members_findings(
                self.source_code@,
                prefix_view(*namespace),
                owner@,
                members@,
            ),
    {
        let ghost s = self.source_code@;
        let ghost prefix = prefix_view(*namespace);
        let ghost start = locations(result@);
        let mut i: usize = 0;
        while i < members.len()
            invariant
                text.wf(),
                text.chars@ == s,
                s == self.source_code@,
                prefix == prefix_view(*namespace),
                i <= members@.len(),
                locations(result@) == start + members_findings(s, prefix, owner@, members@.subrange(0, i as int)),
            decreases members@.len() - i,
        {
            let ghost before = locations(result@);
            match &members[i] {
                Member::Method(method) => {
                    match method.body {
                        Some(body) => {
                            if text.span_has_risk(body.start_line, body.end_line) {
                                let mut full = String::from_str(owner);
                                let sep = "::";
                                proof {
                                    reveal_strlit("::");
                                }
                                assert(sep@ =~= separator());
                                full.append(sep);
                                full.append(method.ident.as_str());
                                let name = qualify_exec(namespace, full.as_str());
                                self.check_docs(text, name, method.span, result);
                            }
                        },
                        None => {},
                    }
                },
                Member::Other => {},
            }
            proof {
                let ms = members@.subrange(0, i + 1);
                assert(ms.drop_last() =~= members@.subrange(0, i as int));
                assert(ms.last() == members@[i as int]);
                assert(locations(result@) =~= before + member_findings(s, prefix, owner@, members@[i as int]));
            }
            i = i + 1;
        }
        assert(members@.subrange(0, members@.len() as int) =~= members@);
    }
}

} // verus!
