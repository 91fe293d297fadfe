//! The parse-tree-backed classifier: a source buffer is parsed with a grammar
//! selected by a language tag, the tree is flattened into plain per-node
//! records in pre-order, and a verified walk maps node kinds to categories,
//! writing each node's category to the line of its start position with
//! last-write-wins overwrite semantics. When no grammar fits the tag or the
//! parse fails, the call degrades to the lexical classifier's batch result.

use vstd::prelude::*;

use crate::lexical::PrefixClassifier;
use crate::lexical::lex_line_cats;
use crate::symbol::Category;
use crate::symbol::ClassifyResult;
use crate::symbol::make_result;
use crate::symbol::result_matches;
use crate::symbol::spec_cat_str;
use crate::symbol::spec_cat_symbol;
use crate::symbol::spec_sym_str;
use crate::text::bytes_eq;
use crate::text::contains_bytes;
use crate::text::contains_seq;
use crate::text::spec_line_count;
use crate::text::spec_lines;
use crate::text::split_lines;
use vstd::string::StringSliceAdditionalSpecFns;

verus! {

/// The closed set of languages with a wired-in grammar.
#[derive(Debug, Clone, Copy, PartialEq, Eq, Structural)]
pub enum AstLanguage {
    Python,
    JavaScript,
    TypeScript,
    Rust,
    Go,
    C,
}

/// ASCII lower-casing of one byte.
pub open spec fn lower_byte(b: u8) -> u8 {
    if 65 <= b <= 90 {
        (b + 32) as u8
    } else {
        b
    }
}

/// ASCII lower-casing of a byte sequence.
pub open spec fn to_lower(s: Seq<u8>) -> Seq<u8> {
    s.map_values(|b: u8| lower_byte(b))
}

/// The language a tag selects, case-insensitively; None for any other tag.
pub open spec fn lang_of(s: Seq<u8>) -> Option<AstLanguage> {
    let l = to_lower(s);
    if l == "python".spec_bytes() || l == "py".spec_bytes() {
        Some(AstLanguage::Python)
    } else if l == "javascript".spec_bytes() || l == "js".spec_bytes() {
        Some(AstLanguage::JavaScript)
    } else if l == "typescript".spec_bytes() || l == "ts".spec_bytes() {
        Some(AstLanguage::TypeScript)
    } else if l == "rust".spec_bytes() || l == "rs".spec_bytes() {
        Some(AstLanguage::Rust)
    } else if l == "go".spec_bytes() {
        Some(AstLanguage::Go)
    } else if l == "c".spec_bytes() || l == "h".spec_bytes() {
        Some(AstLanguage::C)
    } else {
        None
    }
}

fn lower_exec(b: u8) -> (r: u8)
    ensures
        r == lower_byte(b),
{
    if 65 <= b && b <= 90 {
        b + 32
    } else {
        b
    }
}

fn matches_lower(s: &[u8], p: &[u8]) -> (r: bool)
    ensures
        r == (to_lower(s@) == p@),
{
    let n = s.len();
    if n != p.len() {
        assert(to_lower(s@).len() == s@.len());
        return false;
    }
    let mut i: usize = 0;
    while i < n
        invariant
            i <= n,
            n == s@.len() == p@.len(),
            forall|k: int| 0 <= k < i ==> lower_byte(s@[k]) == p@[k],
        decreases n - i,
    {
        if lower_exec(s[i]) != p[i] {
            assert(to_lower(s@)[i as int] != p@[i as int]);
            return false;
        }
        i += 1;
    }
    proof {
        assert(to_lower(s@) =~= p@);
    }
    true
}

impl AstLanguage {
    /// Parse a case-insensitive language tag; any unrecognized tag yields
    /// None.
    pub fn from_str(s: &str) -> (r: Option<Self>)
        ensures
            r == lang_of(s.spec_bytes()),
    {
        let b = s.as_bytes();
        if matches_lower(b, "python".as_bytes()) || matches_lower(b, "py".as_bytes()) {
            Some(Self::Python)
        } else if matches_lower(b, "javascript".as_bytes()) || matches_lower(
            b,
            "js".as_bytes(),
        ) {
            Some(Self::JavaScript)
        } else if matches_lower(b, "typescript".as_bytes()) || matches_lower(
            b,
            "ts".as_bytes(),
        ) {
            Some(Self::TypeScript)
        } else if matches_lower(b, "rust".as_bytes()) || matches_lower(b, "rs".as_bytes()) {
            Some(Self::Rust)
        } else if matches_lower(b, "go".as_bytes()) {
            Some(Self::Go)
        } else if matches_lower(b, "c".as_bytes()) || matches_lower(b, "h".as_bytes()) {
            Some(Self::C)
        } else {
            None
        }
    }
}

/// One parse-tree node as a plain record, taken in pre-order: the node's
/// kind, the row of its start position, and what the refinement steps read:
/// the first child's kind, the first child's source text, and the source text
/// of that child's own first child.
pub struct NodeInfo {
    pub kind: Vec<u8>,
    pub row: usize,
    pub child_kind: Option<Vec<u8>>,
    pub child_text: Option<Vec<u8>>,
    pub grandchild_text: Option<Vec<u8>>,
}

/// Kinds of the tree roots that the walk does not classify.
pub open spec fn is_root_kind(k: Seq<u8>) -> bool {
    k == "program".spec_bytes() || k == "source_file".spec_bytes() || k
        == "translation_unit".spec_bytes()
}

pub open spec fn is_call_kind(k: Seq<u8>) -> bool {
    k == "call_expression".spec_bytes() || k == "call".spec_bytes()
}

pub open spec fn is_comment_kind(k: Seq<u8>) -> bool {
    ||| k == "comment".spec_bytes()
    ||| k == "line_comment".spec_bytes()
    ||| k == "block_comment".spec_bytes()
    ||| k == "doc_comment".spec_bytes()
    ||| k == "string_content".spec_bytes()
}

pub open spec fn is_import_kind(k: Seq<u8>) -> bool {
    ||| k == "import_statement".spec_bytes()
    ||| k == "import_from_statement".spec_bytes()
    ||| k == "use_declaration".spec_bytes()
    ||| k == "use_item".spec_bytes()
    ||| k == "import_declaration".spec_bytes()
    ||| k == "import_spec".spec_bytes()
    ||| k == "preproc_include".spec_bytes()
    ||| k == "module_declaration".spec_bytes()
    ||| k == "package_clause".spec_bytes()
}

pub open spec fn is_declaration_kind(k: Seq<u8>) -> bool {
    ||| k == "function_definition".spec_bytes()
    ||| k == "function_declaration".spec_bytes()
    ||| k == "function_item".spec_bytes()
    ||| k == "method_definition".spec_bytes()
    ||| k == "class_definition".spec_bytes()
    ||| k == "class_declaration".spec_bytes()
    ||| k == "struct_item".spec_bytes()
    ||| k == "struct_specifier".spec_bytes()
    ||| k == "enum_item".spec_bytes()
    ||| k == "enum_specifier".spec_bytes()
    ||| k == "trait_item".spec_bytes()
    ||| k == "interface_declaration".spec_bytes()
    ||| k == "type_alias_declaration".spec_bytes()
    ||| k == "type_item".spec_bytes()
    ||| k == "const_item".spec_bytes()
    ||| k == "static_item".spec_bytes()
    ||| k == "variable_declaration".spec_bytes()
    ||| k == "lexical_declaration".spec_bytes()
    ||| k == "let_declaration".spec_bytes()
    ||| k == "short_var_declaration".spec_bytes()
    ||| k == "impl_item".spec_bytes()
    ||| k == "macro_definition".spec_bytes()
    ||| k == "decorated_definition".spec_bytes()
    ||| k == "export_statement".spec_bytes()
}

pub open spec fn is_logic_kind(k: Seq<u8>) -> bool {
    ||| k == "if_statement".spec_bytes()
    ||| k == "if_expression".spec_bytes()
    ||| k == "else_clause".spec_bytes()
    ||| k == "elif_clause".spec_bytes()
    ||| k == "for_statement".spec_bytes()
    ||| k == "for_expression".spec_bytes()
    ||| k == "while_statement".spec_bytes()
    ||| k == "while_expression".spec_bytes()
    ||| k == "loop_expression".spec_bytes()
    ||| k == "match_expression".spec_bytes()
    ||| k == "match_arm".spec_bytes()
    ||| k == "switch_statement".spec_bytes()
    ||| k == "case_clause".spec_bytes()
    ||| k == "try_statement".spec_bytes()
    ||| k == "catch_clause".spec_bytes()
    ||| k == "except_clause".spec_bytes()
    ||| k == "finally_clause".spec_bytes()
    ||| k == "do_statement".spec_bytes()
    ||| k == "conditional_expression".spec_bytes()
    ||| k == "ternary_expression".spec_bytes()
}

pub open spec fn is_modifier_kind(k: Seq<u8>) -> bool {
    ||| k == "return_statement".spec_bytes()
    ||| k == "yield_expression".spec_bytes()
    ||| k == "break_statement".spec_bytes()
    ||| k == "continue_statement".spec_bytes()
    ||| k == "throw_statement".spec_bytes()
    ||| k == "raise_statement".spec_bytes()
    ||| k == "assert_statement".spec_bytes()
    ||| k == "defer_statement".spec_bytes()
    ||| k == "await_expression".spec_bytes()
}

pub open spec fn is_assignment_kind(k: Seq<u8>) -> bool {
    ||| k == "assignment_statement".spec_bytes()
    ||| k == "assignment_expression".spec_bytes()
    ||| k == "augmented_assignment".spec_bytes()
    ||| k == "compound_assignment_expr".spec_bytes()
    ||| k == "assignment".spec_bytes()
}

pub open spec fn is_neutral_kind(k: Seq<u8>) -> bool {
    ||| k == "}".spec_bytes()
    ||| k == "{".spec_bytes()
    ||| k == "(".spec_bytes()
    ||| k == ")".spec_bytes()
    ||| k == "[".spec_bytes()
    ||| k == "]".spec_bytes()
    ||| k == ";".spec_bytes()
    ||| k == ",".spec_bytes()
    ||| k == "ERROR".spec_bytes()
    ||| k == "program".spec_bytes()
    ||| k == "source_file".spec_bytes()
    ||| k == "block".spec_bytes()
    ||| k == "statement_block".spec_bytes()
}

/// The fixed kind-to-category table. Call kinds and expression statements map
/// to unknown here; a second pass refines them.
pub open spec fn kind_category(k: Seq<u8>) -> Category {
    if is_comment_kind(k) {
        Category::Comment
    } else if is_import_kind(k) {
        Category::Import
    } else if is_declaration_kind(k) {
        Category::Declaration
    } else if is_logic_kind(k) {
        Category::Logic
    } else if is_modifier_kind(k) {
        Category::Modifier
    } else if is_call_kind(k) {
        Category::Unknown
    } else if is_assignment_kind(k) {
        Category::Assignment
    } else if k == "expression_statement".spec_bytes() {
        Category::Unknown
    } else if is_neutral_kind(k) {
        Category::Neutral
    } else {
        Category::Unknown
    }
}

/// Substring patterns that mark a callee as performing I/O.
pub open spec fn is_io_callee(c: Seq<u8>) -> bool {
    ||| contains_seq(c, "print".spec_bytes())
    ||| contains_seq(c, "console.".spec_bytes())
    ||| contains_seq(c, "log".spec_bytes())
    ||| contains_seq(c, "write".spec_bytes())
    ||| contains_seq(c, "read".spec_bytes())
    ||| contains_seq(c, "fetch".spec_bytes())
    ||| contains_seq(c, "stdin".spec_bytes())
    ||| contains_seq(c, "stdout".spec_bytes())
    ||| contains_seq(c, "stderr".spec_bytes())
    ||| contains_seq(c, "open".spec_bytes())
    ||| contains_seq(c, "socket".spec_bytes())
}

/// The bytes an optional text field holds; an absent field reads as empty.
pub open spec fn opt_bytes(o: Option<Vec<u8>>) -> Seq<u8> {
    match o {
        Some(v) => v@,
        None => Seq::empty(),
    }
}

/// The category a node contributes after the refinement steps: a call kind is
/// I/O when its callee text matches an I/O pattern; an expression statement
/// inherits its single child's classification, with the same call refinement.
pub open spec fn node_category(n: NodeInfo) -> Category {
    let base = kind_category(n.kind@);
    if is_call_kind(n.kind@) && base == Category::Unknown {
        if is_io_callee(opt_bytes(n.child_text)) {
            Category::IO
        } else {
            Category::Unknown
        }
    } else if n.kind@ == "expression_statement".spec_bytes() && base == Category::Unknown {
        match n.child_kind {
            Some(ck) => {
                let cc = kind_category(ck@);
                if cc != Category::Unknown {
                    cc
                } else if is_call_kind(ck@) {
                    if is_io_callee(opt_bytes(n.grandchild_text)) {
                        Category::IO
                    } else {
                        Category::Unknown
                    }
                } else {
                    Category::Unknown
                }
            },
            None => Category::Unknown,
        }
    } else {
        base
    }
}

/// One walk step: a non-root node whose refined category is neither unknown
/// nor neutral overwrites the line of its start row.
pub open spec fn apply_node(cats: Seq<Category>, n: NodeInfo) -> Seq<Category> {
    if !is_root_kind(n.kind@) {
        let c = node_category(n);
        if c != Category::Unknown && c != Category::Neutral && n.row < cats.len() {
            cats.update(n.row as int, c)
        } else {
            cats
        }
    } else {
        cats
    }
}

/// The walk over a pre-order node listing, in order; later writes win.
pub open spec fn apply_nodes(cats: Seq<Category>, nodes: Seq<NodeInfo>) -> Seq<Category>
    decreases nodes.len(),
{
    if nodes.len() == 0 {
        cats
    } else {
        apply_nodes(apply_node(cats, nodes[0]), nodes.drop_first())
    }
}

/// The per-line categories a pre-order node listing produces over an
/// initially all-neutral table of `count` lines.
pub open spec fn ast_line_cats(nodes: Seq<NodeInfo>, count: nat) -> Seq<Category> {
    apply_nodes(Seq::new(count, |i: int| Category::Neutral), nodes)
}

proof fn lemma_apply_len(cats: Seq<Category>, nodes: Seq<NodeInfo>)
    ensures
        apply_nodes(cats, nodes).len() == cats.len(),
    decreases nodes.len(),
{
    if nodes.len() > 0 {
        lemma_apply_len(apply_node(cats, nodes[0]), nodes.drop_first());
    }
}

proof fn lemma_apply_push(cats: Seq<Category>, a: Seq<NodeInfo>, x: NodeInfo)
    ensures
        apply_nodes(cats, a.push(x)) == apply_node(apply_nodes(cats, a), x),
    decreases a.len(),
{
    let s = a.push(x);
    assert(s.len() == a.len() + 1);
    assert(apply_nodes(cats, s) == apply_nodes(apply_node(cats, s[0]), s.drop_first()));
    if a.len() == 0 {
        assert(s[0] == x);
        assert(s.drop_first() =~= Seq::<NodeInfo>::empty());
        assert(apply_nodes(apply_node(cats, x), s.drop_first()) == apply_node(cats, x));
        assert(apply_nodes(cats, a) == cats);
    } else {
        assert(s[0] == a[0]);
        assert(s.drop_first() =~= a.drop_first().push(x));
        lemma_apply_push(apply_node(cats, a[0]), a.drop_first(), x);
        assert(apply_nodes(cats, a) == apply_nodes(apply_node(cats, a[0]), a.drop_first()));
    }
}

fn is_root_kind_exec(k: &[u8]) -> (r: bool)
    ensures
        r == is_root_kind(k@),
{
    bytes_eq(k, "program".as_bytes()) || bytes_eq(k, "source_file".as_bytes()) || bytes_eq(
        k,
        "translation_unit".as_bytes(),
    )
}

fn is_call_kind_exec(k: &[u8]) -> (r: bool)
    ensures
        r == is_call_kind(k@),
{
    bytes_eq(k, "call_expression".as_bytes()) || bytes_eq(k, "call".as_bytes())
}

fn is_comment_kind_exec(k: &[u8]) -> (r: bool)
    ensures
        r == is_comment_kind(k@),
{
    bytes_eq(k, "comment".as_bytes()) || bytes_eq(k, "line_comment".as_bytes()) || bytes_eq(
        k,
        "block_comment".as_bytes(),
    ) || bytes_eq(k, "doc_comment".as_bytes()) || bytes_eq(k, "string_content".as_bytes())
}

fn is_import_kind_exec(k: &[u8]) -> (r: bool)
    ensures
        r == is_import_kind(k@),
{
    bytes_eq(k, "import_statement".as_bytes()) || bytes_eq(k, "import_from_statement".as_bytes())
        || bytes_eq(k, "use_declaration".as_bytes()) || bytes_eq(k, "use_item".as_bytes())
        || bytes_eq(k, "import_declaration".as_bytes()) || bytes_eq(k, "import_spec".as_bytes())
        || bytes_eq(k, "preproc_include".as_bytes()) || bytes_eq(
        k,
        "module_declaration".as_bytes(),
    ) || bytes_eq(k, "package_clause".as_bytes())
}

fn is_declaration_kind_exec(k: &[u8]) -> (r: bool)
    ensures
        r == is_declaration_kind(k@),
{
    bytes_eq(k, "function_definition".as_bytes()) || bytes_eq(
        k,
        "function_declaration".as_bytes(),
    ) || bytes_eq(k, "function_item".as_bytes()) || bytes_eq(k, "method_definition".as_bytes())
        || bytes_eq(k, "class_definition".as_bytes()) || bytes_eq(
        k,
        "class_declaration".as_bytes(),
    ) || bytes_eq(k, "struct_item".as_bytes()) || bytes_eq(k, "struct_specifier".as_bytes())
        || bytes_eq(k, "enum_item".as_bytes()) || bytes_eq(k, "enum_specifier".as_bytes())
        || bytes_eq(k, "trait_item".as_bytes()) || bytes_eq(k, "interface_declaration".as_bytes())
        || bytes_eq(k, "type_alias_declaration".as_bytes()) || bytes_eq(
        k,
        "type_item".as_bytes(),
    ) || bytes_eq(k, "const_item".as_bytes()) || bytes_eq(k, "static_item".as_bytes())
        || bytes_eq(k, "variable_declaration".as_bytes()) || bytes_eq(
        k,
        "lexical_declaration".as_bytes(),
    ) || bytes_eq(k, "let_declaration".as_bytes()) || bytes_eq(
        k,
        "short_var_declaration".as_bytes(),
    ) || bytes_eq(k, "impl_item".as_bytes()) || bytes_eq(k, "macro_definition".as_bytes())
        || bytes_eq(k, "decorated_definition".as_bytes()) || bytes_eq(
        k,
        "export_statement".as_bytes(),
    )
}

fn is_logic_kind_exec(k: &[u8]) -> (r: bool)
    ensures
        r == is_logic_kind(k@),
{
    bytes_eq(k, "if_statement".as_bytes()) || bytes_eq(k, "if_expression".as_bytes()) || bytes_eq(
        k,
        "else_clause".as_bytes(),
    ) || bytes_eq(k, "elif_clause".as_bytes()) || bytes_eq(k, "for_statement".as_bytes())
        || bytes_eq(k, "for_expression".as_bytes()) || bytes_eq(k, "while_statement".as_bytes())
        || bytes_eq(k, "while_expression".as_bytes()) || bytes_eq(k, "loop_expression".as_bytes())
        || bytes_eq(k, "match_expression".as_bytes()) || bytes_eq(k, "match_arm".as_bytes())
        || bytes_eq(k, "switch_statement".as_bytes()) || bytes_eq(k, "case_clause".as_bytes())
        || bytes_eq(k, "try_statement".as_bytes()) || bytes_eq(k, "catch_clause".as_bytes())
        || bytes_eq(k, "except_clause".as_bytes()) || bytes_eq(k, "finally_clause".as_bytes())
        || bytes_eq(k, "do_statement".as_bytes()) || bytes_eq(
        k,
        "conditional_expression".as_bytes(),
    ) || bytes_eq(k, "ternary_expression".as_bytes())
}

fn is_modifier_kind_exec(k: &[u8]) -> (r: bool)
    ensures
        r == is_modifier_kind(k@),
{
    bytes_eq(k, "return_statement".as_bytes()) || bytes_eq(k, "yield_expression".as_bytes())
        || bytes_eq(k, "break_statement".as_bytes()) || bytes_eq(
        k,
        "continue_statement".as_bytes(),
    ) || bytes_eq(k, "throw_statement".as_bytes()) || bytes_eq(k, "raise_statement".as_bytes())
        || bytes_eq(k, "assert_statement".as_bytes()) || bytes_eq(k, "defer_statement".as_bytes())
        || bytes_eq(k, "await_expression".as_bytes())
}

fn is_assignment_kind_exec(k: &[u8]) -> (r: bool)
    ensures
        r == is_assignment_kind(k@),
{
    bytes_eq(k, "assignment_statement".as_bytes()) || bytes_eq(
        k,
        "assignment_expression".as_bytes(),
    ) || bytes_eq(k, "augmented_assignment".as_bytes()) || bytes_eq(
        k,
        "compound_assignment_expr".as_bytes(),
    ) || bytes_eq(k, "assignment".as_bytes())
}

fn is_neutral_kind_exec(k: &[u8]) -> (r: bool)
    ensures
        r == is_neutral_kind(k@),
{
    bytes_eq(k, "}".as_bytes()) || bytes_eq(k, "{".as_bytes()) || bytes_eq(k, "(".as_bytes())
        || bytes_eq(k, ")".as_bytes()) || bytes_eq(k, "[".as_bytes()) || bytes_eq(
        k,
        "]".as_bytes(),
    ) || bytes_eq(k, ";".as_bytes()) || bytes_eq(k, ",".as_bytes()) || bytes_eq(
        k,
        "ERROR".as_bytes(),
    ) || bytes_eq(k, "program".as_bytes()) || bytes_eq(k, "source_file".as_bytes()) || bytes_eq(
        k,
        "block".as_bytes(),
    ) || bytes_eq(k, "statement_block".as_bytes())
}

/// The fixed kind-to-category lookup, testable without any parser.
pub fn classify_node_kind(kind: &str) -> (c: Category)
    ensures
        c == kind_category(kind.spec_bytes()),
{
    kind_category_exec(kind.as_bytes())
}

fn kind_category_exec(k: &[u8]) -> (c: Category)
    ensures
        c == kind_category(k@),
{
    if is_comment_kind_exec(k) {
        Category::Comment
    } else if is_import_kind_exec(k) {
        Category::Import
    } else if is_declaration_kind_exec(k) {
        Category::Declaration
    } else if is_logic_kind_exec(k) {
        Category::Logic
    } else if is_modifier_kind_exec(k) {
        Category::Modifier
    } else if is_call_kind_exec(k) {
        Category::Unknown
    } else if is_assignment_kind_exec(k) {
        Category::Assignment
    } else if bytes_eq(k, "expression_statement".as_bytes()) {
        Category::Unknown
    } else if is_neutral_kind_exec(k) {
        Category::Neutral
    } else {
        Category::Unknown
    }
}

fn is_io_callee_exec(c: &[u8]) -> (r: bool)
    ensures
        r == is_io_callee(c@),
{
    contains_bytes(c, "print".as_bytes()) || contains_bytes(c, "console.".as_bytes())
        || contains_bytes(c, "log".as_bytes()) || contains_bytes(c, "write".as_bytes())
        || contains_bytes(c, "read".as_bytes()) || contains_bytes(c, "fetch".as_bytes())
        || contains_bytes(c, "stdin".as_bytes()) || contains_bytes(c, "stdout".as_bytes())
        || contains_bytes(c, "stderr".as_bytes()) || contains_bytes(c, "open".as_bytes())
        || contains_bytes(c, "socket".as_bytes())
}

fn node_category_exec(n: &NodeInfo) -> (c: Category)
    ensures
        c == node_category(*n),
{
    let base = kind_category_exec(n.kind.as_slice());
    if is_call_kind_exec(n.kind.as_slice()) && base == Category::Unknown {
        let io = match &n.child_text {
            Some(v) => is_io_callee_exec(v.as_slice()),
            None => {
                let e: Vec<u8> = Vec::new();
                is_io_callee_exec(e.as_slice())
            },
        };
        if io {
            Category::IO
        } else {
            Category::Unknown
        }
    } else if bytes_eq(n.kind.as_slice(), "expression_statement".as_bytes()) && base
        == Category::Unknown {
        match &n.child_kind {
            Some(ck) => {
                let cc = kind_category_exec(ck.as_slice());
                if cc != Category::Unknown {
                    cc
                } else if is_call_kind_exec(ck.as_slice()) {
                    let io = match &n.grandchild_text {
                        Some(v) => is_io_callee_exec(v.as_slice()),
                        None => {
                            let e: Vec<u8> = Vec::new();
                            is_io_callee_exec(e.as_slice())
                        },
                    };
                    if io {
                        Category::IO
                    } else {
                        Category::Unknown
                    }
                } else {
                    Category::Unknown
                }
            },
            None => Category::Unknown,
        }
    } else {
        base
    }
}

/// Run the walk over a pre-order node listing: every line starts neutral, and
/// each non-root node with a category other than unknown or neutral
/// overwrites its start line, last write wins. Exact for every listing,
/// whatever the parser returned.
pub fn classify_from_nodes(nodes: &Vec<NodeInfo>, line_count: usize) -> (r: Vec<ClassifyResult>)
    ensures
        r@.len() == line_count,
        forall|i: int|
            0 <= i < r@.len() ==> result_matches(
                r@[i],
                ast_line_cats(nodes@, line_count as nat)[i],
                i + 1,
            ),
{
    let ghost init = Seq::new(line_count as nat, |i: int| Category::Neutral);
    let mut cats: Vec<Category> = Vec::new();
    let mut j: usize = 0;
    while j < line_count
        invariant
            j <= line_count,
            cats@.len() == j,
            forall|k: int| 0 <= k < j ==> cats@[k] == Category::Neutral,
        decreases line_count - j,
    {
        cats.push(Category::Neutral);
        j += 1;
    }
    proof {
        assert(cats@ =~= init);
        assert(nodes@.take(0) =~= Seq::<NodeInfo>::empty());
    }
    let n = nodes.len();
    let mut p: usize = 0;
    while p < n
        invariant
            p <= n,
            n == nodes@.len(),
            cats@.len() == line_count,
            cats@ == apply_nodes(init, nodes@.take(p as int)),
            init == Seq::new(line_count as nat, |i: int| Category::Neutral),
        decreases n - p,
    {
        let node = &nodes[p];
        let c = node_category_exec(node);
        let root = is_root_kind_exec(node.kind.as_slice());
        proof {
            lemma_apply_push(init, nodes@.take(p as int), nodes@[p as int]);
            assert(nodes@.take(p as int + 1) =~= nodes@.take(p as int).push(nodes@[p as int]));
        }
        if !root && c != Category::Unknown && c != Category::Neutral && node.row < line_count {
            cats.set(node.row, c);
        }
        p += 1;
    }
    proof {
        assert(nodes@.take(n as int) =~= nodes@);
        lemma_apply_len(init, nodes@);
    }
    let mut results: Vec<ClassifyResult> = Vec::new();
    let mut i: usize = 0;
    while i < line_count
        invariant
            i <= line_count,
            cats@.len() == line_count,
            cats@ == ast_line_cats(nodes@, line_count as nat),
            results@.len() == i,
            forall|k: int|
                0 <= k < i ==> result_matches(
                    results@[k],
                    ast_line_cats(nodes@, line_count as nat)[k],
                    k + 1,
                ),
        decreases line_count - i,
    {
        results.push(make_result(cats[i], i + 1));
        i += 1;
    }
    results
}

/// Verus treats this tree-sitter type as opaque; it is only handed through.
#[verifier::external_type_specification]
#[verifier::external_body]
pub struct ExTsLanguage(tree_sitter::Language);

/// Verus treats this tree-sitter type as opaque; it is only handed through.
#[verifier::external_type_specification]
#[verifier::external_body]
pub struct ExTsNode<'a>(tree_sitter::Node<'a>);

/// Relies on the grammar constants of the tree-sitter grammar crates: selects
/// the grammar object for a language.
#[verifier::external_body]
fn ts_language(lang: AstLanguage) -> tree_sitter::Language {
    match lang {
        AstLanguage::Python => tree_sitter_python::LANGUAGE.into(),
        AstLanguage::JavaScript => tree_sitter_javascript::LANGUAGE.into(),
        AstLanguage::TypeScript => tree_sitter_typescript::LANGUAGE_TYPESCRIPT.into(),
        AstLanguage::Rust => tree_sitter_rust::LANGUAGE.into(),
        AstLanguage::Go => tree_sitter_go::LANGUAGE.into(),
        AstLanguage::C => tree_sitter_c::LANGUAGE.into(),
    }
}

/// Relies on tree_sitter::Node (kind, start_position, child, byte_range):
/// copies one node into a plain record.
#[verifier::external_body]
fn node_record<'a>(node: tree_sitter::Node<'a>, source: &[u8]) -> NodeInfo {
    NodeInfo {
        kind: node.kind().as_bytes().to_vec(),
        row: node.start_position().row,
        child_kind: node.child(0).map(|c| c.kind().as_bytes().to_vec()),
        child_text: node.child(0).map(|c| source[c.byte_range()].to_vec()),
        grandchild_text: node.child(0).and_then(|c| c.child(0)).map(
            |c| source[c.byte_range()].to_vec(),
        ),
    }
}

/// What parsing a text with a language's grammar yields: the pre-order node
/// records of the parse tree, or None when the grammar cannot be loaded or
/// the parse fails. Parsing is deterministic — a function of the text and
/// the grammar alone — so the outcome bears a name.
pub uninterp spec fn parsed_nodes_of(source: Seq<u8>, lang: AstLanguage) -> Option<Seq<NodeInfo>>;

/// The record listing an optional vector of records holds.
pub open spec fn opt_nodes(o: Option<Vec<NodeInfo>>) -> Option<Seq<NodeInfo>> {
    match o {
        Some(v) => Some(v@),
        None => None,
    }
}

/// The per-line categories the parse-backed strategy assigns to a text: the
/// walk over the parsed node records, or the lexical categories when the
/// parse fails.
pub open spec fn ast_cats_of(src: Seq<u8>, lang: AstLanguage) -> Seq<Category> {
    match parsed_nodes_of(src, lang) {
        Some(nodes) => ast_line_cats(nodes, spec_lines(src).len()),
        None => lex_line_cats(src),
    }
}

/// Relies on tree_sitter::Parser (new, set_language, parse), Tree::root_node
/// and Node (child_count, child): parses a text and flattens the tree into
/// its pre-order node records; None when the grammar cannot be loaded or the
/// parse fails.
#[verifier::external_body]
fn parse_nodes(source: &str, lang: AstLanguage) -> (r: Option<Vec<NodeInfo>>)
    ensures
        opt_nodes(r) == parsed_nodes_of(source.spec_bytes(), lang),
{
    let mut parser = tree_sitter::Parser::new();
    parser.set_language(&ts_language(lang)).ok()?;
    let tree = parser.parse(source, None)?;
    let bytes = source.as_bytes();
    let mut out: Vec<NodeInfo> = Vec::new();
    let mut stack: Vec<tree_sitter::Node> = vec![tree.root_node()];
    while let Some(node) = stack.pop() {
        out.push(node_record(node, bytes));
        for i in (0..node.child_count()).rev() {
            if let Some(c) = node.child(i) {
                stack.push(c);
            }
        }
    }
    Some(out)
}

/// The parse-tree-backed classifier; it degrades to the lexical classifier
/// when no grammar fits the tag or the parse fails.
pub struct AstClassifier {
    regex_fallback: PrefixClassifier,
}

impl Default for AstClassifier {
    fn default() -> (r: Self)
        ensures
            true,
    {
        Self::new()
    }
}

impl AstClassifier {
    pub fn new() -> (r: Self)
        ensures
            true,
    {
        AstClassifier { regex_fallback: PrefixClassifier::new() }
    }

    /// Whether a callee text names an I/O operation.
    pub fn is_io_call(callee: &str) -> (r: bool)
        ensures
            r == is_io_callee(callee.spec_bytes()),
    {
        is_io_callee_exec(callee.as_bytes())
    }

    /// Classify a full source text per line with the grammar of `lang`: one
    /// record per physical line, 1-indexed, carrying the walk over the named
    /// parse outcome; when the parse fails, exactly the lexical batch
    /// categories.
    pub fn classify_source(&self, source: &str, lang: AstLanguage) -> (r: Vec<ClassifyResult>)
        ensures
            r@.len() == spec_line_count(source.spec_bytes()),
            forall|i: int|
                0 <= i < r@.len() ==> result_matches(
                    r@[i],
                    ast_cats_of(source.spec_bytes(), lang)[i],
                    i + 1,
                ),
    {
        let lines = split_lines(source.as_bytes());
        let line_count = lines.len();
        match parse_nodes(source, lang) {
            Some(nodes) => {
                proof {
                    assert(parsed_nodes_of(source.spec_bytes(), lang) == Some(nodes@));
                    assert(ast_cats_of(source.spec_bytes(), lang) == ast_line_cats(
                        nodes@,
                        line_count as nat,
                    ));
                }
                classify_from_nodes(&nodes, line_count)
            },
            None => {
                proof {
                    assert(ast_cats_of(source.spec_bytes(), lang) == lex_line_cats(
                        source.spec_bytes(),
                    ));
                }
                self.regex_fallback.classify_batch(source)
            },
        }
    }

    /// Classify with the grammar the tag selects; any unrecognized tag routes
    /// to the lexical classifier, whose result it then equals exactly.
    pub fn classify_auto(&self, source: &str, lang_hint: &str) -> (r: Vec<ClassifyResult>)
        ensures
            r@.len() == spec_line_count(source.spec_bytes()),
            match lang_of(lang_hint.spec_bytes()) {
                Some(l) => forall|i: int|
                    0 <= i < r@.len() ==> result_matches(
                        r@[i],
                        ast_cats_of(source.spec_bytes(), l)[i],
                        i + 1,
                    ),
                None => forall|i: int|
                    0 <= i < r@.len() ==> result_matches(
                        r@[i],
                        lex_line_cats(source.spec_bytes())[i],
                        i + 1,
                    ),
            },
    {
        match AstLanguage::from_str(lang_hint) {
            Some(lang) => self.classify_source(source, lang),
            None => self.regex_fallback.classify_batch(source),
        }
    }

    /// Run both strategies over the same source and compare them. The report
    /// covers every physical line; every count and every disagreement record
    /// is pinned to the two per-line category models, so equal inputs yield
    /// equal reports.
    pub fn compare_methods(&self, source: &str, lang: AstLanguage) -> (r: AstVsRegexReport)
        ensures
            r.total_lines == spec_line_count(source.spec_bytes()),
            r.agreement_count == count_cat_agree(
                ast_cats_of(source.spec_bytes(), lang),
                lex_line_cats(source.spec_bytes()),
                r.total_lines as int,
            ),
            r.ast_classified == count_cat_classified(
                ast_cats_of(source.spec_bytes(), lang),
                r.total_lines as int,
            ),
            r.regex_classified == count_cat_classified(
                lex_line_cats(source.spec_bytes()),
                r.total_lines as int,
            ),
            r.agreement_count + r.disagreements@.len() == r.total_lines,
            forall|j: int|
                0 <= j < r.disagreements@.len() ==> disag_models_ok(
                    r.disagreements@[j],
                    ast_cats_of(source.spec_bytes(), lang),
                    lex_line_cats(source.spec_bytes()),
                ),
            forall|j1: int, j2: int|
                0 <= j1 < j2 < r.disagreements@.len() ==> r.disagreements@[j1].line
                    < r.disagreements@[j2].line,
    {
        let ast_results = self.classify_source(source, lang);
        let regex_results = self.regex_fallback.classify_batch(source);
        let report = compare_results(&ast_results, &regex_results);
        proof {
            let src = source.spec_bytes();
            let ca = ast_cats_of(src, lang);
            let cb = lex_line_cats(src);
            let n = ast_results@.len() as int;
            if parsed_nodes_of(src, lang) is Some {
                let nodes = parsed_nodes_of(src, lang)->Some_0;
                lemma_apply_len(
                    Seq::new(spec_lines(src).len(), |i: int| Category::Neutral),
                    nodes,
                );
            }
            lemma_agree_counts_match(ast_results@, regex_results@, ca, cb, n);
            lemma_classified_counts_match(ast_results@, ca, n);
            lemma_classified_counts_match(regex_results@, cb, n);
            assert forall|j: int| 0 <= j < report.disagreements@.len() implies disag_models_ok(
                report.disagreements@[j],
                ca,
                cb,
            ) by {
                let d = report.disagreements@[j];
                assert(disag_ok(d, ast_results@, regex_results@));
                assert(result_matches(ast_results@[d.line - 1], ca[d.line - 1], d.line as int));
                assert(result_matches(regex_results@[d.line - 1], cb[d.line - 1], d.line as int));
                if ca[d.line - 1] == cb[d.line - 1] {
                    assert(false);
                }
            }
        }
        report
    }
}

/// Agreement and coverage statistics comparing the parse-tree-backed and the
/// lexical classification of one text: the total line count, the count of
/// lines where the symbols agree, the number of lines each strategy
/// classified as something other than neutral or unknown, and the ordered
/// per-line disagreements.
pub struct AstVsRegexReport {
    pub total_lines: usize,
    pub agreement_count: usize,
    pub ast_classified: usize,
    pub regex_classified: usize,
    pub disagreements: Vec<Disagreement>,
}

/// One line on which the two strategies disagree, with both symbols and both
/// category names.
pub struct Disagreement {
    pub line: usize,
    pub ast_symbol: String,
    pub regex_symbol: String,
    pub ast_category: String,
    pub regex_category: String,
}

/// A record counts as classified when its category is neither neutral nor
/// unknown.
pub open spec fn result_classified(r: ClassifyResult) -> bool {
    r.category@ != "neutral"@ && r.category@ != "unknown"@
}

/// The number of positions below `n` where the two listings agree on the
/// symbol.
pub open spec fn count_agree(a: Seq<ClassifyResult>, b: Seq<ClassifyResult>, n: int) -> int
    decreases n,
{
    if n <= 0 {
        0
    } else {
        count_agree(a, b, n - 1) + (if a[n - 1].symbol@ == b[n - 1].symbol@ {
            1int
        } else {
            0int
        })
    }
}

/// The number of positions below `n` whose record counts as classified.
pub open spec fn count_classified(a: Seq<ClassifyResult>, n: int) -> int
    decreases n,
{
    if n <= 0 {
        0
    } else {
        count_classified(a, n - 1) + (if result_classified(a[n - 1]) {
            1int
        } else {
            0int
        })
    }
}

/// The number of positions below `n` where two category listings agree.
pub open spec fn count_cat_agree(a: Seq<Category>, b: Seq<Category>, n: int) -> int
    decreases n,
{
    if n <= 0 {
        0
    } else {
        count_cat_agree(a, b, n - 1) + (if a[n - 1] == b[n - 1] {
            1int
        } else {
            0int
        })
    }
}

/// The number of positions below `n` whose category is neither neutral nor
/// unknown.
pub open spec fn count_cat_classified(a: Seq<Category>, n: int) -> int
    decreases n,
{
    if n <= 0 {
        0
    } else {
        count_cat_classified(a, n - 1) + (if a[n - 1] != Category::Neutral && a[n - 1]
            != Category::Unknown {
            1int
        } else {
            0int
        })
    }
}

/// Records carrying a category model are counted as classified exactly where
/// the model's category is neither neutral nor unknown.
proof fn lemma_classified_counts_match(rs: Seq<ClassifyResult>, cats: Seq<Category>, n: int)
    requires
        n <= rs.len(),
        forall|i: int| 0 <= i < rs.len() ==> result_matches(rs[i], cats[i], i + 1),
    ensures
        count_classified(rs, n) == count_cat_classified(cats, n),
    decreases n,
{
    if n > 0 {
        lemma_classified_counts_match(rs, cats, n - 1);
        let c = cats[n - 1];
        assert(rs[n - 1].category@ == spec_cat_str(c));
        if c != Category::Neutral {
            crate::symbol::lemma_cat_str_injective(c, Category::Neutral);
        }
        if c != Category::Unknown {
            crate::symbol::lemma_cat_str_injective(c, Category::Unknown);
        }
    }
}

/// Records carrying two category models agree on the symbol exactly where
/// the models' categories are equal.
proof fn lemma_agree_counts_match(
    ra: Seq<ClassifyResult>,
    rb: Seq<ClassifyResult>,
    ca: Seq<Category>,
    cb: Seq<Category>,
    n: int,
)
    requires
        n <= ra.len(),
        n <= rb.len(),
        forall|i: int| 0 <= i < ra.len() ==> result_matches(ra[i], ca[i], i + 1),
        forall|i: int| 0 <= i < rb.len() ==> result_matches(rb[i], cb[i], i + 1),
    ensures
        count_agree(ra, rb, n) == count_cat_agree(ca, cb, n),
    decreases n,
{
    if n > 0 {
        lemma_agree_counts_match(ra, rb, ca, cb, n - 1);
        if ca[n - 1] != cb[n - 1] {
            crate::symbol::lemma_cat_symbol_str_injective(ca[n - 1], cb[n - 1]);
        }
    }
}

/// A disagreement record carries one line's two categories faithfully: both
/// symbols and both names derive from the two per-line models, which differ
/// on that line.
pub open spec fn disag_models_ok(d: Disagreement, ca: Seq<Category>, cb: Seq<Category>) -> bool {
    &&& 1 <= d.line <= ca.len()
    &&& d.line <= cb.len()
    &&& d.ast_symbol@ == spec_sym_str(spec_cat_symbol(ca[d.line - 1]))
    &&& d.regex_symbol@ == spec_sym_str(spec_cat_symbol(cb[d.line - 1]))
    &&& d.ast_category@ == spec_cat_str(ca[d.line - 1])
    &&& d.regex_category@ == spec_cat_str(cb[d.line - 1])
    &&& ca[d.line - 1] != cb[d.line - 1]
}

/// A disagreement record faithfully carries line `d.line`'s two symbols and
/// category names, and those symbols indeed differ.
pub open spec fn disag_ok(d: Disagreement, a: Seq<ClassifyResult>, b: Seq<ClassifyResult>) -> bool {
    &&& 1 <= d.line <= a.len()
    &&& d.line <= b.len()
    &&& d.ast_symbol@ == a[d.line - 1].symbol@
    &&& d.regex_symbol@ == b[d.line - 1].symbol@
    &&& d.ast_category@ == a[d.line - 1].category@
    &&& d.regex_category@ == b[d.line - 1].category@
    &&& a[d.line - 1].symbol@ != b[d.line - 1].symbol@
}

/// Compare two per-line listings of the same length: count symbol agreement
/// and per-strategy coverage, and collect the disagreeing lines in order.
pub fn compare_results(ast: &Vec<ClassifyResult>, regex: &Vec<ClassifyResult>) -> (r:
    AstVsRegexReport)
    requires
        ast@.len() == regex@.len(),
    ensures
        r.total_lines == ast@.len(),
        r.agreement_count == count_agree(ast@, regex@, ast@.len() as int),
        r.ast_classified == count_classified(ast@, ast@.len() as int),
        r.regex_classified == count_classified(regex@, regex@.len() as int),
        r.agreement_count + r.disagreements@.len() == ast@.len(),
        forall|j: int|
            0 <= j < r.disagreements@.len() ==> disag_ok(r.disagreements@[j], ast@, regex@),
        forall|j1: int, j2: int|
            0 <= j1 < j2 < r.disagreements@.len() ==> r.disagreements@[j1].line
                < r.disagreements@[j2].line,
{
    let total = ast.len();
    let neutral_name = "neutral".to_owned();
    let unknown_name = "unknown".to_owned();
    let mut agree: usize = 0;
    let mut ast_classified: usize = 0;
    let mut regex_classified: usize = 0;
    let mut disagreements: Vec<Disagreement> = Vec::new();
    let mut i: usize = 0;
    while i < total
        invariant
            i <= total,
            total == ast@.len() == regex@.len(),
            neutral_name@ == "neutral"@,
            unknown_name@ == "unknown"@,
            agree == count_agree(ast@, regex@, i as int),
            ast_classified == count_classified(ast@, i as int),
            regex_classified == count_classified(regex@, i as int),
            agree <= i,
            ast_classified <= i,
            regex_classified <= i,
            agree + disagreements@.len() == i,
            forall|j: int|
                0 <= j < disagreements@.len() ==> disag_ok(disagreements@[j], ast@, regex@),
            forall|j: int| 0 <= j < disagreements@.len() ==> disagreements@[j].line <= i,
            forall|j1: int, j2: int|
                0 <= j1 < j2 < disagreements@.len() ==> disagreements@[j1].line
                    < disagreements@[j2].line,
        decreases total - i,
    {
        let a = &ast[i];
        let b = &regex[i];
        if !(a.category == neutral_name) && !(a.category == unknown_name) {
            ast_classified += 1;
        }
        if !(b.category == neutral_name) && !(b.category == unknown_name) {
            regex_classified += 1;
        }
        if a.symbol == b.symbol {
            agree += 1;
        } else {
            disagreements.push(
                Disagreement {
                    line: i + 1,
                    ast_symbol: a.symbol.clone(),
                    regex_symbol: b.symbol.clone(),
                    ast_category: a.category.clone(),
                    regex_category: b.category.clone(),
                },
            );
        }
        i += 1;
    }
    AstVsRegexReport {
        total_lines: total,
        agreement_count: agree,
        ast_classified,
        regex_classified,
        disagreements,
    }
}

} // verus!
