//! The front-end: filtering of the source text and parsing into the generic
//! syntax tree.
use vstd::prelude::*;

use lang_c::ast;

use crate::syntax::{SyntaxDecl, SyntaxExpr, SyntaxItem, SyntaxStmt, SyntaxUnit};

verus! {

/// The cursor marker of the displayed program; it never reaches the parser.
pub const PLACEHOLDER: char = '$';

/// The lines of a text, split at each `'\n'`; a text without one is one line.
pub open spec fn split_lines(s: Seq<char>) -> Seq<Seq<char>>
    decreases s.len(),
{
    if s.len() == 0 {
        seq![seq![]]
    } else {
        let init = split_lines(s.drop_last());
        if s.last() == '\n' {
            init.push(seq![])
        } else {
            init.update(init.len() - 1, init.last().push(s.last()))
        }
    }
}

/// Unicode white space, as `char::is_whitespace` and `str::trim` define it.
pub open spec fn is_white_space(c: char) -> bool {
    let u = c as u32;
    (0x09 <= u <= 0x0d) || u == 0x20 || u == 0x85 || u == 0xa0 || u == 0x1680 || (0x2000 <= u
        <= 0x200a) || u == 0x2028 || u == 0x2029 || u == 0x202f || u == 0x205f || u == 0x3000
}

/// A line without its leading white space.
pub open spec fn trim_start(l: Seq<char>) -> Seq<char>
    decreases l.len(),
{
    if l.len() > 0 && is_white_space(l[0]) {
        trim_start(l.skip(1))
    } else {
        l
    }
}

/// A preprocessor line: its first character is `#`.
pub open spec fn is_directive_line(l: Seq<char>) -> bool {
    l.len() > 0 && l[0] == '#'
}

/// A comment line: after leading white space it starts with `//`.
pub open spec fn is_comment_line(l: Seq<char>) -> bool {
    let t = trim_start(l);
    t.len() >= 2 && t[0] == '/' && t[1] == '/'
}

/// A line without any placeholder character.
pub open spec fn without_placeholder(l: Seq<char>) -> Seq<char>
    decreases l.len(),
{
    if l.len() == 0 {
        seq![]
    } else {
        let init = without_placeholder(l.drop_last());
        if l.last() == PLACEHOLDER {
            init
        } else {
            init.push(l.last())
        }
    }
}

/// The lines that reach the parser, without their placeholders: every line
/// but preprocessor and comment lines.
pub open spec fn kept_lines(ls: Seq<Seq<char>>) -> Seq<Seq<char>>
    decreases ls.len(),
{
    if ls.len() == 0 {
        seq![]
    } else {
        let init = kept_lines(ls.drop_last());
        let l = ls.last();
        if is_directive_line(l) || is_comment_line(l) {
            init
        } else {
            init.push(without_placeholder(l))
        }
    }
}

/// Lines joined with `'\n'` between each two.
pub open spec fn join_lines(ls: Seq<Seq<char>>) -> Seq<char>
    decreases ls.len(),
{
    if ls.len() == 0 {
        seq![]
    } else if ls.len() == 1 {
        ls[0]
    } else {
        join_lines(ls.drop_last()) + seq!['\n'] + ls.last()
    }
}

/// The text handed to the parser.
pub open spec fn preprocess_spec(s: Seq<char>) -> Seq<char> {
    join_lines(kept_lines(split_lines(s)))
}

/// The characters of each line of a vector of lines.
pub open spec fn lines_view(v: Seq<Vec<char>>) -> Seq<Seq<char>> {
    v.map_values(|l: Vec<char>| l@)
}

/// Whether a character is white space.
pub fn white_space(c: char) -> (r: bool)
    ensures
        r == is_white_space(c),
{
    let u = c as u32;
    (0x09 <= u && u <= 0x0d) || u == 0x20 || u == 0x85 || u == 0xa0 || u == 0x1680 || (0x2000
        <= u && u <= 0x200a) || u == 0x2028 || u == 0x2029 || u == 0x202f || u == 0x205f || u
        == 0x3000
}

fn split_into_lines(chars: &Vec<char>) -> (r: Vec<Vec<char>>)
    ensures
        lines_view(r@) == split_lines(chars@),
{
    let mut done: Vec<Vec<char>> = Vec::new();
    let mut current: Vec<char> = Vec::new();
    let mut i: usize = 0;
    proof {
        assert(chars@.take(0) =~= seq![]);
        assert(lines_view(done@).push(current@) =~= seq![seq![]]);
    }
    while i < chars.len()
        invariant
            i <= chars@.len(),
            split_lines(chars@.take(i as int)) == lines_view(done@).push(current@),
        decreases chars@.len() - i,
    {
        let c = chars[i];
        proof {
            assert(chars@.take(i + 1).drop_last() =~= chars@.take(i as int));
            assert(chars@.take(i + 1).last() == c);
        }
        let ghost before = done@;
        if c == '\n' {
            let mut line: Vec<char> = Vec::new();
            std::mem::swap(&mut line, &mut current);
            done.push(line);
            proof {
                assert(lines_view(done@) =~= lines_view(before).push(line@));
            }
        } else {
            current.push(c);
            proof {
                assert(lines_view(done@).push(current@) =~= lines_view(before).push(
                    current@.drop_last(),
                ).update(before.len() as int, current@));
            }
        }
        i = i + 1;
    }
    proof {
        assert(chars@.take(i as int) =~= chars@);
    }
    let ghost before = done@;
    done.push(current);
    proof {
        assert(lines_view(done@) =~= lines_view(before).push(current@));
    }
    done
}

fn is_comment(line: &Vec<char>) -> (r: bool)
    ensures
        r == is_comment_line(line@),
{
    let mut w: usize = 0;
    proof {
        assert(line@.skip(0) =~= line@);
    }
    while w < line.len() && white_space(line[w])
        invariant
            w <= line@.len(),
            trim_start(line@) == trim_start(line@.skip(w as int)),
        decreases line@.len() - w,
    {
        proof {
            assert(line@.skip(w as int).skip(1) =~= line@.skip(w + 1));
        }
        w = w + 1;
    }
    let ghost t = line@.skip(w as int);
    proof {
        if w < line@.len() {
            assert(t[0] == line@[w as int]);
        }
        assert(trim_start(t) == t);
    }
    let r = w < line.len() && line.len() - w >= 2 && line[w] == '/' && line[w + 1] == '/';
    proof {
        if line.len() - w >= 2 {
            assert(t[1] == line@[w + 1]);
        }
    }
    r
}

fn append_without_placeholder(out: &mut Vec<char>, line: &Vec<char>)
    ensures
        final(out)@ == old(out)@ + without_placeholder(line@),
{
    let ghost start = out@;
    let mut m: usize = 0;
    proof {
        assert(line@.take(0) =~= seq![]);
        assert(start + without_placeholder(seq![]) =~= start);
    }
    while m < line.len()
        invariant
            m <= line@.len(),
            out@ == start + without_placeholder(line@.take(m as int)),
        decreases line@.len() - m,
    {
        let c = line[m];
        proof {
            assert(line@.take(m + 1).drop_last() =~= line@.take(m as int));
            assert(line@.take(m + 1).last() == c);
        }
        if c != PLACEHOLDER {
            out.push(c);
            proof {
                assert(out@ =~= start + without_placeholder(line@.take(m + 1)));
            }
        }
        m = m + 1;
    }
    proof {
        assert(line@.take(m as int) =~= line@);
    }
}

/// Filters a source text for the parser: drops the lines that start with
/// `#` and those that start with `//` after white space, removes every
/// placeholder character, and joins the remaining lines with `'\n'`.
pub fn preprocess(code: &str) -> (r: String)
    ensures
        r@ == preprocess_spec(code@),
{
    let chars = crate::text::chars_of(code);
    let lines = split_into_lines(&chars);
    let ghost all = lines_view(lines@);
    let mut out: Vec<char> = Vec::new();
    let mut any = false;
    let mut j: usize = 0;
    proof {
        assert(all.take(0) =~= seq![]);
    }
    while j < lines.len()
        invariant
            j <= lines@.len(),
            all == lines_view(lines@),
            out@ == join_lines(kept_lines(all.take(j as int))),
            any == (kept_lines(all.take(j as int)).len() > 0),
        decreases lines@.len() - j,
    {
        let line = &lines[j];
        proof {
            assert(all.take(j + 1).drop_last() =~= all.take(j as int));
            assert(all.take(j + 1).last() == line@);
        }
        let directive = line.len() > 0 && line[0] == '#';
        if !directive && !is_comment(line) {
            let ghost ks = kept_lines(all.take(j as int));
            if any {
                out.push('\n');
            }
            append_without_placeholder(&mut out, line);
            any = true;
            proof {
                let ks2 = ks.push(without_placeholder(line@));
                assert(ks2.drop_last() =~= ks);
            }
        }
        j = j + 1;
    }
    proof {
        assert(all.take(j as int) =~= all);
    }
    crate::text::string_of(&out)
}

} // verus!

verus! {

#[verifier::external_type_specification]
#[verifier::external_body]
pub struct ExTranslationUnit(ast::TranslationUnit);

#[verifier::external_type_specification]
#[verifier::external_body]
pub struct ExStatement(lang_c::ast::Statement);

#[verifier::external_type_specification]
#[verifier::external_body]
pub struct ExExpression(lang_c::ast::Expression);

#[verifier::external_type_specification]
#[verifier::external_body]
pub struct ExBlockItem(ast::BlockItem);

#[verifier::external_type_specification]
#[verifier::external_body]
pub struct ExIfStatement(ast::IfStatement);

#[verifier::external_type_specification]
#[verifier::external_body]
pub struct ExWhileStatement(ast::WhileStatement);

#[verifier::external_type_specification]
#[verifier::external_body]
pub struct ExBinaryOperatorExpression(ast::BinaryOperatorExpression);

/// The syntax tree that the C parser yields for a text, or `None` when the
/// text is not valid C.
pub uninterp spec fn parsed_unit(source: Seq<char>) -> Option<SyntaxUnit>;

/// Relies on `lang_c::driver::parse_preprocessed`: it parses the text in the
/// C11 flavor of the default configuration (GNU extensions, or Clang ones on
/// macOS) without running a preprocessor, and yields the translation unit or
/// a syntax error; the outcome depends on the text alone.
#[verifier::external_body]
pub(crate) fn parse_source(source: String) -> (r: Option<SyntaxUnit>)
    ensures
        r == parsed_unit(source@),
{
    match lang_c::driver::parse_preprocessed(&lang_c::driver::Config::default(), source) {
        Ok(parse) => Some(unit_of(&parse.unit)),
        Err(_) => None,
    }
}

/// Converts a `lang_c` translation unit into the library's tree, one
/// top-level item for each.
#[verifier::external_body]
fn unit_of(unit: &ast::TranslationUnit) -> SyntaxUnit {
    let decl = |d: &ast::ExternalDeclaration| match d {
        ast::ExternalDeclaration::FunctionDefinition(f) => SyntaxDecl::Function(
            match &f.node.declarator.node.kind.node {
                ast::DeclaratorKind::Identifier(id) => Some(id.node.name.clone()),
                _ => None,
            },
            statement_of(&f.node.statement.node),
        ),
        _ => SyntaxDecl::Other,
    };
    SyntaxUnit { items: unit.0.iter().map(|d| decl(&d.node)).collect() }
}

/// Converts a `lang_c` statement into the library's tree, variant by variant.
#[verifier::external_body]
fn statement_of(s: &lang_c::ast::Statement) -> SyntaxStmt {
    match s {
        ast::Statement::Compound(items) => SyntaxStmt::Compound(items.iter().map(|i| item_of(&i.node)).collect()),
        ast::Statement::Expression(e) => SyntaxStmt::Expression(e.as_ref().map(|e| expression_of(&e.node))),
        ast::Statement::If(n) => if_of(&n.node),
        ast::Statement::While(n) => while_of(&n.node),
        ast::Statement::Goto(_) => SyntaxStmt::Goto,
        ast::Statement::Break => SyntaxStmt::Break,
        ast::Statement::Return(_) => SyntaxStmt::Return,
        _ => SyntaxStmt::Other,
    }
}

/// Converts a `lang_c` block item: a statement, or anything else.
#[verifier::external_body]
fn item_of(i: &ast::BlockItem) -> SyntaxItem {
    match i {
        ast::BlockItem::Statement(s) => SyntaxItem::Statement(statement_of(&s.node)),
        _ => SyntaxItem::Declaration,
    }
}

/// Converts a `lang_c` if statement, with its condition and both branches.
#[verifier::external_body]
fn if_of(n: &ast::IfStatement) -> SyntaxStmt {
    let else_branch = n.else_statement.as_ref().map(|e| Box::new(statement_of(&e.node)));
    SyntaxStmt::If(expression_of(&n.condition.node), Box::new(statement_of(&n.then_statement.node)), else_branch)
}

/// Converts a `lang_c` while statement, with its condition and body.
#[verifier::external_body]
fn while_of(n: &ast::WhileStatement) -> SyntaxStmt {
    SyntaxStmt::While(expression_of(&n.expression.node), Box::new(statement_of(&n.statement.node)))
}

/// Converts a `lang_c` expression into the library's tree, variant by variant.
#[verifier::external_body]
fn expression_of(e: &lang_c::ast::Expression) -> SyntaxExpr {
    match e {
        ast::Expression::Identifier(id) => SyntaxExpr::Identifier(id.node.name.clone()),
        ast::Expression::Call(c) => SyntaxExpr::Call(Box::new(expression_of(&c.node.callee.node))),
        ast::Expression::BinaryOperator(b) => binary_of(&b.node),
        _ => SyntaxExpr::Other,
    }
}

/// Converts a `lang_c` binary operation: whether it is the logical and, and
/// both operands.
#[verifier::external_body]
fn binary_of(b: &ast::BinaryOperatorExpression) -> SyntaxExpr {
    let is_and = b.operator.node == ast::BinaryOperator::LogicalAnd;
    SyntaxExpr::Binary(is_and, Box::new(expression_of(&b.lhs.node)), Box::new(expression_of(&b.rhs.node)))
}

} // verus!

verus! {

/// A text with its first placeholder replaced by `text`; unchanged when it
/// has no placeholder.
pub open spec fn fill_placeholder_spec(code: Seq<char>, text: Seq<char>) -> Seq<char>
    decreases code.len(),
{
    if code.len() == 0 {
        seq![]
    } else if code[0] == PLACEHOLDER {
        text + code.skip(1)
    } else {
        seq![code[0]] + fill_placeholder_spec(code.skip(1), text)
    }
}

fn append_all(out: &mut Vec<char>, text: &Vec<char>)
    ensures
        final(out)@ == old(out)@ + text@,
{
    let ghost start = out@;
    let mut k: usize = 0;
    while k < text.len()
        invariant
            k <= text@.len(),
            out@ == start + text@.take(k as int),
        decreases text@.len() - k,
    {
        out.push(text[k]);
        proof {
            assert(out@ =~= start + text@.take(k + 1));
        }
        k = k + 1;
    }
    proof {
        assert(text@.take(k as int) =~= text@);
    }
}

/// Puts a token's text into the program: replaces the first placeholder of
/// `code` by `text`, or leaves `code` as it is when it has none.
pub fn fill_placeholder(code: &str, text: &str) -> (r: String)
    ensures
        r@ == fill_placeholder_spec(code@, text@),
{
    let chars = crate::text::chars_of(code);
    let inserted = crate::text::chars_of(text);
    let mut out: Vec<char> = Vec::new();
    let mut done = false;
    let mut i: usize = 0;
    proof {
        assert(chars@.skip(0) =~= chars@);
        assert(out@ + fill_placeholder_spec(chars@, inserted@) =~= fill_placeholder_spec(chars@, inserted@));
    }
    while i < chars.len()
        invariant
            i <= chars@.len(),
            fill_placeholder_spec(chars@, inserted@) == out@ + if done {
                chars@.skip(i as int)
            } else {
                fill_placeholder_spec(chars@.skip(i as int), inserted@)
            },
        decreases chars@.len() - i,
    {
        let c = chars[i];
        let ghost rest = chars@.skip(i as int);
        let ghost prev = out@;
        proof {
            assert(rest[0] == c);
            assert(rest.skip(1) =~= chars@.skip(i + 1));
            assert(rest =~= seq![c] + chars@.skip(i + 1));
        }
        if !done && c == PLACEHOLDER {
            append_all(&mut out, &inserted);
            done = true;
            proof {
                assert(prev + (inserted@ + chars@.skip(i + 1)) =~= out@ + chars@.skip(i + 1));
            }
        } else {
            out.push(c);
            proof {
                if done {
                    assert(prev + (seq![c] + chars@.skip(i + 1)) =~= out@ + chars@.skip(i + 1));
                } else {
                    let tail = fill_placeholder_spec(chars@.skip(i + 1), inserted@);
                    assert(prev + (seq![c] + tail) =~= out@ + tail);
                }
            }
        }
        i = i + 1;
    }
    proof {
        assert(chars@.skip(i as int) =~= seq![]);
        assert(out@ + Seq::<char>::empty() =~= out@);
    }
    crate::text::string_of(&out)
}

} // verus!
