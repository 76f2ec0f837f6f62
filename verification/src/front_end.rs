//! The shading-language front end: the `glsl` crate's parser, and the nodes
//! of its syntax tree as this library models them.
//!
//! The parser is trusted, not verified. What it yields for a source text is
//! named `parsed_tree`; the verified code of this module turns the tree into
//! `SyntaxNode` values node by node, and keeps away from the parser the texts
//! on which its source shows a panic (see `within_guard`).

use crate::syntax::{
    name_views, node_views, qualifier_views, DeclaredName, ImportPath, Qualifier, SyntaxNode, SyntaxNodeView,
    TypeSyntax,
};
use crate::text::{chars_of, occurs_at, starts_at};
use glsl::parser::Parse;
use vstd::prelude::*;

verus! {

/// Trusted: the syntax tree that the `glsl` crate builds, opaque to the
/// verifier.
#[verifier::external_type_specification]
#[verifier::external_body]
pub struct ExTranslationUnit(glsl::syntax::TranslationUnit);

/// Trusted: the error with which the `glsl` crate rejects a text, opaque to
/// the verifier.
#[verifier::external_type_specification]
#[verifier::external_body]
pub struct ExParseError(glsl::parser::ParseError);

/// The nodes of the tree that `glsl`'s parser builds for a source text, or
/// `None` where it rejects the text.
pub uninterp spec fn parsed_tree(text: Seq<char>) -> Option<Seq<SyntaxNodeView>>;

/// The top-level nodes that a syntax tree holds, in source order. An
/// external declaration that is a list of declarators is a `Variables` node,
/// an interface block is a `Block` node, an `#include` directive is an
/// `Include` node, and every other external declaration is `Other`.
pub uninterp spec fn tree_nodes(unit: glsl::syntax::TranslationUnit) -> Seq<SyntaxNodeView>;

/// An ASCII digit.
pub open spec fn is_digit(c: char) -> bool {
    '0' <= c && c <= '9'
}

/// An ASCII letter or digit.
pub open spec fn is_alphanumeric(c: char) -> bool {
    is_digit(c) || ('a' <= c && c <= 'z') || ('A' <= c && c <= 'Z')
}

/// A character that may stand between the words of a directive.
pub open spec fn is_directive_space(c: char) -> bool {
    c == ' ' || c == '\t' || c == '\\' || c == '\n'
}

/// The value of a hexadecimal digit; 16 for any other character.
pub open spec fn digit_value(c: char) -> nat {
    if '0' <= c && c <= '9' {
        (c as u8 - 48) as nat
    } else if 'a' <= c && c <= 'f' {
        (c as u8 - 87) as nat
    } else if 'A' <= c && c <= 'F' {
        (c as u8 - 55) as nat
    } else {
        16
    }
}

/// A digit of the given radix.
pub open spec fn is_radix_digit(c: char, radix: nat) -> bool {
    digit_value(c) < radix
}

/// The number that a sequence of digits writes in the given radix.
pub open spec fn radix_value(digits: Seq<char>, radix: nat) -> nat
    decreases digits.len(),
{
    if digits.len() == 0 {
        0
    } else {
        radix_value(digits.drop_last(), radix) * radix + digit_value(digits.last())
    }
}

/// Where the run of digits of the given radix that begins at `from` ends.
pub open spec fn run_end(text: Seq<char>, from: int, radix: nat) -> int
    decreases text.len() - from,
{
    if 0 <= from < text.len() && is_radix_digit(text[from], radix) {
        run_end(text, from + 1, radix)
    } else {
        from
    }
}

/// The number that the run of digits at `from` writes.
pub open spec fn number_at(text: Seq<char>, from: int, radix: nat) -> nat {
    radix_value(text.subrange(from, run_end(text, from, radix)), radix)
}

/// Where the run of directive space that begins at `from` ends.
pub open spec fn skip_space(text: Seq<char>, from: int) -> int
    decreases text.len() - from,
{
    if 0 <= from < text.len() && is_directive_space(text[from]) {
        skip_space(text, from + 1)
    } else {
        from
    }
}

/// No letter or digit other than `u` and `U` stands at `at`: an integer
/// literal that ends before `at` ends there for the parser too.
pub open spec fn ends_literal(text: Seq<char>, at: int) -> bool {
    !(0 <= at < text.len()) || !is_alphanumeric(text[at]) || text[at] == 'u' || text[at] == 'U'
}

/// A version directive begins at `at` whose number is above 65535: a `#`,
/// the word `version` after directive space, and the number after directive
/// space again.
pub open spec fn version_overflow_at(text: Seq<char>, at: int) -> bool {
    let word = skip_space(text, at + 1);
    let number = skip_space(text, word + 7);
    &&& 0 <= at < text.len()
    &&& text[at] == '#'
    &&& occurs_at(text, "version"@, word)
    &&& word + 7 < number
    &&& number_at(text, number, 10) > 65535
}

/// A `-` stands at `at`, directly followed by an integer literal of value
/// 2147483648, written in decimal, in octal (after `0`) or in hexadecimal
/// (after `0x` or `0X`).
pub open spec fn negated_minimum_at(text: Seq<char>, at: int) -> bool {
    &&& 0 <= at
    &&& at + 1 < text.len()
    &&& text[at] == '-'
    &&& if text[at + 1] == '0' {
        ||| number_at(text, at + 1, 8) == 2147483648 && ends_literal(text, run_end(text, at + 1, 8))
        ||| {
            &&& at + 2 < text.len()
            &&& text[at + 2] == 'x' || text[at + 2] == 'X'
            &&& number_at(text, at + 3, 16) == 2147483648
            &&& ends_literal(text, run_end(text, at + 3, 16))
        }
    } else {
        number_at(text, at + 1, 10) == 2147483648
    }
}

/// The texts that are handed to the parser. Left out are the texts on which
/// the parser's source shows a panic: those with a version directive whose
/// number is above 65535 and those with the negation of an integer literal
/// of value 2147483648. Such a form is left out wherever it stands, in a
/// comment too.
pub open spec fn within_guard(text: Seq<char>) -> bool {
    &&& forall|at: int| !version_overflow_at(text, at)
    &&& forall|at: int| !negated_minimum_at(text, at)
}

/// The nodes of the syntax tree of a source text, or `None` for a text that
/// is kept from the parser or that the parser rejects.
pub open spec fn syntax_of(text: Seq<char>) -> Option<Seq<SyntaxNodeView>> {
    if within_guard(text) {
        parsed_tree(text)
    } else {
        None
    }
}

/// Trusted: `<glsl::syntax::TranslationUnit as glsl::parser::Parse>::parse`.
/// The parser is a function of the text alone; it returns `Ok` with the tree
/// that `parsed_tree` names, or its error. The texts outside `within_guard`
/// are not handed to it. As the contracts of the standard library do, this
/// one says nothing of exhausted memory or stack: the parser recurses as
/// deep as the text nests and as far as its chains of operators reach.
#[verifier::external_body]
fn parse_unit(text: &str) -> (parsed: Result<glsl::syntax::TranslationUnit, glsl::parser::ParseError>)
    requires
        within_guard(text@),
    ensures
        parsed is Ok <==> parsed_tree(text@) is Some,
        parsed matches Ok(unit) ==> parsed_tree(text@) == Some(tree_nodes(unit)),
{
    glsl::syntax::TranslationUnit::parse(text)
}

/// Trusted: the number of external declarations of a
/// `glsl::syntax::TranslationUnit`, read off its public field.
#[verifier::external_body]
fn unit_len(unit: &glsl::syntax::TranslationUnit) -> (len: usize)
    ensures
        len == tree_nodes(*unit).len(),
{
    (unit.0).0.len()
}

/// Trusted: the type of the list of declarators at `at`. A structure
/// specifier is `Struct`, a type name is `Named`, and any other type
/// specifier is `Builtin` with the keyword that
/// `glsl::transpiler::glsl::show_type_specifier_non_array` writes for it.
/// The node is a `Variables` node exactly where there is such a type.
#[verifier::external_body]
fn node_type(unit: &glsl::syntax::TranslationUnit, at: usize) -> (ty: Option<TypeSyntax>)
    requires
        at < tree_nodes(*unit).len(),
    ensures
        ty is Some <==> tree_nodes(*unit)[at as int] is Variables,
        ty matches Some(t) ==> tree_nodes(*unit)[at as int]->type_syntax == t@,
{
    match &(unit.0).0[at] {
        glsl::syntax::ExternalDeclaration::Declaration(glsl::syntax::Declaration::InitDeclaratorList(list)) => Some(match &list.head.ty.ty.ty {
            glsl::syntax::TypeSpecifierNonArray::Struct(_) => TypeSyntax::Struct,
            glsl::syntax::TypeSpecifierNonArray::TypeName(name) => TypeSyntax::Named(name.0.clone()),
            builtin => {
                let mut word = String::new();
                glsl::transpiler::glsl::show_type_specifier_non_array(&mut word, builtin);
                TypeSyntax::Builtin(word)
            },
        }),
        _ => None,
    }
}

/// Trusted: the type qualifiers of the declaration at `at`, in source order,
/// read off the public fields of the tree. A storage qualifier is `Storage`
/// with the keyword that `glsl::transpiler::glsl::show_storage_qualifier`
/// writes for it; a qualifier of any other sort is `Other`.
#[verifier::external_body]
fn node_qualifiers(unit: &glsl::syntax::TranslationUnit, at: usize) -> (qualifiers: Vec<Qualifier>)
    requires
        at < tree_nodes(*unit).len(),
    ensures
        tree_nodes(*unit)[at as int] is Variables ==> qualifier_views(qualifiers@) == tree_nodes(
            *unit,
        )[at as int]->Variables_qualifiers,
        tree_nodes(*unit)[at as int] is Block ==> qualifier_views(qualifiers@) == tree_nodes(
            *unit,
        )[at as int]->Block_qualifiers,
{
    let qualifier = match &(unit.0).0[at] {
        glsl::syntax::ExternalDeclaration::Declaration(glsl::syntax::Declaration::InitDeclaratorList(list)) => list.head.ty.qualifier.as_ref(),
        glsl::syntax::ExternalDeclaration::Declaration(glsl::syntax::Declaration::Block(block)) => Some(&block.qualifier),
        _ => None,
    };
    qualifier.iter().flat_map(|q| q.qualifiers.0.iter()).map(|spec| match spec {
        glsl::syntax::TypeQualifierSpec::Storage(storage) => {
            let mut word = String::new();
            glsl::transpiler::glsl::show_storage_qualifier(&mut word, storage);
            Qualifier::Storage(word)
        },
        _ => Qualifier::Other,
    }).collect()
}

/// Trusted: whether the type of the declaration at `at` carries an array
/// specifier, read off the public fields of the tree.
#[verifier::external_body]
fn node_arrayed(unit: &glsl::syntax::TranslationUnit, at: usize) -> (arrayed: bool)
    requires
        at < tree_nodes(*unit).len(),
    ensures
        tree_nodes(*unit)[at as int] is Variables ==> arrayed == tree_nodes(*unit)[at as int]->arrayed,
{
    match &(unit.0).0[at] {
        glsl::syntax::ExternalDeclaration::Declaration(glsl::syntax::Declaration::InitDeclaratorList(list)) => list.head.ty.ty.array_specifier.is_some(),
        _ => false,
    }
}

/// Trusted: the names that the list of declarators at `at` introduces, in
/// source order, each with the presence of its array specifier, read off the
/// public fields of the tree.
#[verifier::external_body]
fn node_names(unit: &glsl::syntax::TranslationUnit, at: usize) -> (names: Vec<DeclaredName>)
    requires
        at < tree_nodes(*unit).len(),
    ensures
        tree_nodes(*unit)[at as int] is Variables ==> name_views(names@) == tree_nodes(*unit)[at as int]->names,
{
    match &(unit.0).0[at] {
        glsl::syntax::ExternalDeclaration::Declaration(glsl::syntax::Declaration::InitDeclaratorList(list)) => list.head.name.iter()
            .map(|name| DeclaredName { name: name.0.clone(), arrayed: list.head.array_specifier.is_some() })
            .chain(list.tail.iter().map(|more| DeclaredName { name: more.ident.ident.0.clone(), arrayed: more.ident.array_spec.is_some() }))
            .collect(),
        _ => Vec::new(),
    }
}

/// Trusted: the block name of the interface block at `at` and its instance
/// name, if it has one, read off the public fields of the tree. The node is
/// a `Block` node exactly where the external declaration is an interface
/// block.
#[verifier::external_body]
fn node_block_names(unit: &glsl::syntax::TranslationUnit, at: usize) -> (names: Option<(String, Option<String>)>)
    requires
        at < tree_nodes(*unit).len(),
    ensures
        names is Some <==> tree_nodes(*unit)[at as int] is Block,
        names matches Some((name, instance)) ==> tree_nodes(*unit)[at as int]->name == name@ && tree_nodes(
            *unit,
        )[at as int]->instance == instance.deep_view(),
{
    match &(unit.0).0[at] {
        glsl::syntax::ExternalDeclaration::Declaration(glsl::syntax::Declaration::Block(block)) => Some((
            block.name.0.clone(),
            block.identifier.as_ref().map(|instance| instance.ident.0.clone()),
        )),
        _ => None,
    }
}

/// Trusted: the path of the `#include` directive at `at`, read off the
/// public fields of the tree. The node is an `Include` node exactly where the
/// external declaration is such a directive.
#[verifier::external_body]
fn node_include(unit: &glsl::syntax::TranslationUnit, at: usize) -> (path: Option<ImportPath>)
    requires
        at < tree_nodes(*unit).len(),
    ensures
        path is Some <==> tree_nodes(*unit)[at as int] is Include,
        path matches Some(p) ==> tree_nodes(*unit)[at as int] == SyntaxNodeView::Include(p@),
{
    match &(unit.0).0[at] {
        glsl::syntax::ExternalDeclaration::Preprocessor(glsl::syntax::Preprocessor::Include(directive)) => Some(match &directive.path {
            glsl::syntax::Path::Absolute(path) => ImportPath::Absolute(path.clone()),
            glsl::syntax::Path::Relative(path) => ImportPath::Relative(path.clone()),
        }),
        _ => None,
    }
}

/// The node at `at` of a syntax tree.
fn load_node(unit: &glsl::syntax::TranslationUnit, at: usize) -> (node: SyntaxNode)
    requires
        at < tree_nodes(*unit).len(),
    ensures
        node@ == tree_nodes(*unit)[at as int],
{
    match node_type(unit, at) {
        Some(type_syntax) => SyntaxNode::Variables {
            qualifiers: node_qualifiers(unit, at),
            type_syntax,
            arrayed: node_arrayed(unit, at),
            names: node_names(unit, at),
        },
        None => match node_block_names(unit, at) {
            Some((name, instance)) => SyntaxNode::Block { qualifiers: node_qualifiers(unit, at), name, instance },
            None => match node_include(unit, at) {
                Some(path) => SyntaxNode::Include(path),
                None => SyntaxNode::Other,
            },
        },
    }
}

/// The nodes of a syntax tree, in source order.
fn load_tree(unit: &glsl::syntax::TranslationUnit) -> (nodes: Vec<SyntaxNode>)
    ensures
        node_views(nodes@) == tree_nodes(*unit),
{
    let len = unit_len(unit);
    let mut nodes: Vec<SyntaxNode> = Vec::new();
    let mut at: usize = 0;
    while at < len
        invariant
            at <= len == tree_nodes(*unit).len(),
            node_views(nodes@) == tree_nodes(*unit).subrange(0, at as int),
        decreases len - at,
    {
        let ghost before = nodes@;
        let node = load_node(unit, at);
        nodes.push(node);
        assert(node_views(nodes@) =~= node_views(before).push(node@));
        assert(tree_nodes(*unit).subrange(0, at + 1) =~= tree_nodes(*unit).subrange(0, at as int).push(node@));
        at = at + 1;
    }
    assert(tree_nodes(*unit).subrange(0, len as int) =~= tree_nodes(*unit));
    nodes
}

/// Where the run of directive space that begins at `from` ends.
fn skip_spaces(chars: &Vec<char>, from: usize) -> (end: usize)
    requires
        from <= chars@.len(),
    ensures
        end == skip_space(chars@, from as int),
        from <= end <= chars@.len(),
{
    let len: usize = chars.len();
    let mut end: usize = from;
    while end < len && (chars[end] == ' ' || chars[end] == '\t' || chars[end] == '\\' || chars[end] == '\n')
        invariant
            from <= end <= chars@.len() == len,
            skip_space(chars@, from as int) == skip_space(chars@, end as int),
        decreases len - end,
    {
        end = end + 1;
    }
    end
}

/// The value of `c` as a digit of the given radix, if it is one.
fn digit_of(c: char, radix: u64) -> (value: Option<u64>)
    requires
        radix <= 16,
    ensures
        value is Some <==> is_radix_digit(c, radix as nat),
        value matches Some(v) ==> v == digit_value(c) && v < radix,
{
    let v: u64 = if '0' <= c && c <= '9' {
        (c as u8 - 48) as u64
    } else if 'a' <= c && c <= 'f' {
        (c as u8 - 87) as u64
    } else if 'A' <= c && c <= 'F' {
        (c as u8 - 55) as u64
    } else {
        16
    };
    if v < radix {
        Some(v)
    } else {
        None
    }
}

/// Where the run of digits at `from` ends, and the number it writes, capped
/// at `limit + 1`.
fn scan_number(chars: &Vec<char>, from: usize, radix: u64, limit: u64) -> (scanned: (usize, u64))
    requires
        from <= chars@.len(),
        1 <= radix <= 16,
        limit <= 0x1_0000_0000,
    ensures
        scanned.0 == run_end(chars@, from as int, radix as nat),
        from <= scanned.0 <= chars@.len(),
        scanned.1 == if number_at(chars@, from as int, radix as nat) <= limit {
            number_at(chars@, from as int, radix as nat)
        } else {
            (limit + 1) as nat
        },
{
    let len: usize = chars.len();
    let mut end: usize = from;
    let mut capped: u64 = 0;
    assert(chars@.subrange(from as int, from as int) =~= Seq::empty());
    loop
        invariant_except_break
            from <= end <= chars@.len() == len,
            1 <= radix <= 16,
            limit <= 0x1_0000_0000,
            run_end(chars@, from as int, radix as nat) == run_end(chars@, end as int, radix as nat),
            capped <= limit + 1,
            capped == if radix_value(chars@.subrange(from as int, end as int), radix as nat) <= limit {
                radix_value(chars@.subrange(from as int, end as int), radix as nat)
            } else {
                (limit + 1) as nat
            },
        ensures
            from <= end <= chars@.len(),
            end == run_end(chars@, from as int, radix as nat),
            capped == if radix_value(chars@.subrange(from as int, end as int), radix as nat) <= limit {
                radix_value(chars@.subrange(from as int, end as int), radix as nat)
            } else {
                (limit + 1) as nat
            },
        decreases len - end,
    {
        if end >= len {
            break ;
        }
        let digit = match digit_of(chars[end], radix) {
            Some(digit) => digit,
            None => {
                break ;
            },
        };
        let ghost before = chars@.subrange(from as int, end as int);
        let ghost after = chars@.subrange(from as int, end + 1);
        assert(after.drop_last() =~= before);
        assert(after.last() == chars@[end as int]);
        let ghost value = radix_value(before, radix as nat);
        assert(radix_value(after, radix as nat) == value * radix + digit);
        assert(value > limit ==> value * radix + digit > limit) by (nonlinear_arith)
            requires
                radix >= 1,
                digit >= 0,
                value >= 0,
        ;
        assert(capped * radix <= 0x1_0000_0001 * 16) by (nonlinear_arith)
            requires
                capped <= 0x1_0000_0001,
                radix <= 16,
        ;
        assert(capped == limit + 1 ==> capped * radix + digit > limit) by (nonlinear_arith)
            requires
                radix >= 1,
                digit >= 0,
                capped >= 0,
        ;
        let next: u64 = capped * radix + digit;
        capped = if next > limit {
            limit + 1
        } else {
            next
        };
        end = end + 1;
    }
    (end, capped)
}

/// Whether a literal that ends before `at` ends there for the parser too.
fn literal_ends(chars: &Vec<char>, at: usize) -> (yes: bool)
    ensures
        yes == ends_literal(chars@, at as int),
{
    if at >= chars.len() {
        return true;
    }
    let c = chars[at];
    let alphanumeric = ('0' <= c && c <= '9') || ('a' <= c && c <= 'z') || ('A' <= c && c <= 'Z');
    !alphanumeric || c == 'u' || c == 'U'
}

/// Whether a version directive with a number above 65535 begins at `at`.
fn version_overflow(chars: &Vec<char>, at: usize) -> (yes: bool)
    requires
        at < chars@.len(),
    ensures
        yes == version_overflow_at(chars@, at as int),
{
    let len: usize = chars.len();
    if chars[at] != '#' {
        return false;
    }
    let word = skip_spaces(chars, at + 1);
    if !starts_at(chars, word, "version") {
        return false;
    }
    proof {
        reveal_strlit("version");
    }
    let number = skip_spaces(chars, word + 7);
    if number == word + 7 {
        return false;
    }
    let (_, value) = scan_number(chars, number, 10, 65535);
    value > 65535
}

/// Whether the negation of a literal of value 2147483648 stands at `at`.
fn negated_minimum(chars: &Vec<char>, at: usize) -> (yes: bool)
    requires
        at < chars@.len(),
    ensures
        yes == negated_minimum_at(chars@, at as int),
{
    let len: usize = chars.len();
    if chars[at] != '-' || len - at < 2 {
        return false;
    }
    if chars[at + 1] == '0' {
        let (octal_end, octal) = scan_number(chars, at + 1, 8, 2147483648);
        if octal == 2147483648 && literal_ends(chars, octal_end) {
            return true;
        }
        if len - at < 3 || (chars[at + 2] != 'x' && chars[at + 2] != 'X') {
            return false;
        }
        let (hex_end, hex) = scan_number(chars, at + 3, 16, 2147483648);
        hex == 2147483648 && literal_ends(chars, hex_end)
    } else {
        let (_, decimal) = scan_number(chars, at + 1, 10, 2147483648);
        decimal == 2147483648
    }
}

/// Whether a text may be handed to the parser.
pub fn guarded(text: &str) -> (yes: bool)
    ensures
        yes == within_guard(text@),
{
    let chars = chars_of(text);
    let mut at: usize = 0;
    while at < chars.len()
        invariant
            at <= chars@.len(),
            chars@ == text@,
            forall|k: int| 0 <= k < at ==> !version_overflow_at(chars@, k) && !negated_minimum_at(chars@, k),
        decreases chars@.len() - at,
    {
        if version_overflow(&chars, at) || negated_minimum(&chars, at) {
            return false;
        }
        at = at + 1;
    }
    true
}

/// The nodes of the syntax tree of a source text; `None` for a text that is
/// kept from the parser or that the parser rejects.
pub fn parse_syntax(text: &str) -> (nodes: Option<Vec<SyntaxNode>>)
    ensures
        nodes is Some <==> syntax_of(text@) is Some,
        nodes matches Some(tree) ==> syntax_of(text@) == Some(node_views(tree@)),
{
    if !guarded(text) {
        return None;
    }
    match parse_unit(text) {
        Ok(unit) => Some(load_tree(&unit)),
        Err(_) => None,
    }
}

} // verus!
