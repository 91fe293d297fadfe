//! The symbol model: the closed nine-value classification alphabet, its 4-bit
//! numeric encoding, its 3-axis coordinate encoding, and the nine semantic
//! categories with their canonical symbols.

use vstd::prelude::*;

verus! {

/// The nine classification symbols.
#[derive(Debug, Clone, Copy, PartialEq, Eq, Hash, Structural)]
pub enum PrefixSymbol {
    PlusOne,
    One,
    MinusOne,
    PlusZero,
    Zero,
    MinusZero,
    PlusN,
    N,
    MinusN,
}

/// The nine semantic roles a line can play.
#[derive(Debug, Clone, Copy, PartialEq, Eq, Hash, Structural)]
pub enum Category {
    Declaration,
    Logic,
    IO,
    Assignment,
    Neutral,
    Comment,
    Modifier,
    Import,
    Unknown,
}

/// Canonical short text form of a symbol.
pub open spec fn spec_sym_str(s: PrefixSymbol) -> Seq<char> {
    match s {
        PrefixSymbol::PlusOne => "+1"@,
        PrefixSymbol::One => "1"@,
        PrefixSymbol::MinusOne => "-1"@,
        PrefixSymbol::PlusZero => "+0"@,
        PrefixSymbol::Zero => "0"@,
        PrefixSymbol::MinusZero => "-0"@,
        PrefixSymbol::PlusN => "+n"@,
        PrefixSymbol::N => "n"@,
        PrefixSymbol::MinusN => "-n"@,
    }
}

/// Text form of a symbol right-justified to width two, for gutter display.
pub open spec fn spec_gutter_str(s: PrefixSymbol) -> Seq<char> {
    match s {
        PrefixSymbol::PlusOne => "+1"@,
        PrefixSymbol::One => " 1"@,
        PrefixSymbol::MinusOne => "-1"@,
        PrefixSymbol::PlusZero => "+0"@,
        PrefixSymbol::Zero => " 0"@,
        PrefixSymbol::MinusZero => "-0"@,
        PrefixSymbol::PlusN => "+n"@,
        PrefixSymbol::N => " n"@,
        PrefixSymbol::MinusN => "-n"@,
    }
}

/// The 4-bit code of a symbol, in `[0, 8]`.
pub open spec fn spec_to_bits(s: PrefixSymbol) -> u8 {
    match s {
        PrefixSymbol::PlusOne => 0,
        PrefixSymbol::One => 1,
        PrefixSymbol::MinusOne => 2,
        PrefixSymbol::PlusZero => 3,
        PrefixSymbol::Zero => 4,
        PrefixSymbol::MinusZero => 5,
        PrefixSymbol::PlusN => 6,
        PrefixSymbol::N => 7,
        PrefixSymbol::MinusN => 8,
    }
}

/// The symbol encoded by a 4-bit code; every code outside `[0, 7]` decodes to
/// the "unknown" symbol rather than failing.
pub open spec fn spec_from_bits(b: u8) -> PrefixSymbol {
    if b == 0 {
        PrefixSymbol::PlusOne
    } else if b == 1 {
        PrefixSymbol::One
    } else if b == 2 {
        PrefixSymbol::MinusOne
    } else if b == 3 {
        PrefixSymbol::PlusZero
    } else if b == 4 {
        PrefixSymbol::Zero
    } else if b == 5 {
        PrefixSymbol::MinusZero
    } else if b == 6 {
        PrefixSymbol::PlusN
    } else if b == 7 {
        PrefixSymbol::N
    } else {
        PrefixSymbol::MinusN
    }
}

/// The 3-axis coordinate of a symbol; each axis lies in `{-1, 0, 1}`.
pub open spec fn spec_to_3d(s: PrefixSymbol) -> (i8, i8, i8) {
    match s {
        PrefixSymbol::PlusOne => (1i8, 1i8, 0i8),
        PrefixSymbol::One => (0i8, 1i8, 0i8),
        PrefixSymbol::MinusOne => (-1i8, 1i8, 0i8),
        PrefixSymbol::PlusZero => (1i8, 0i8, 0i8),
        PrefixSymbol::Zero => (0i8, 0i8, 0i8),
        PrefixSymbol::MinusZero => (-1i8, 0i8, 0i8),
        PrefixSymbol::PlusN => (1i8, -1i8, 0i8),
        PrefixSymbol::N => (0i8, -1i8, 0i8),
        PrefixSymbol::MinusN => (-1i8, -1i8, 0i8),
    }
}

/// Canonical name of a category.
pub open spec fn spec_cat_str(c: Category) -> Seq<char> {
    match c {
        Category::Declaration => "declaration"@,
        Category::Logic => "logic"@,
        Category::IO => "io"@,
        Category::Assignment => "assignment"@,
        Category::Neutral => "neutral"@,
        Category::Comment => "comment"@,
        Category::Modifier => "modifier"@,
        Category::Import => "import"@,
        Category::Unknown => "unknown"@,
    }
}

/// The canonical symbol of a category; total and injective.
pub open spec fn spec_cat_symbol(c: Category) -> PrefixSymbol {
    match c {
        Category::Declaration => PrefixSymbol::PlusOne,
        Category::Logic => PrefixSymbol::One,
        Category::IO => PrefixSymbol::MinusOne,
        Category::Assignment => PrefixSymbol::PlusZero,
        Category::Neutral => PrefixSymbol::Zero,
        Category::Comment => PrefixSymbol::MinusZero,
        Category::Modifier => PrefixSymbol::PlusN,
        Category::Import => PrefixSymbol::N,
        Category::Unknown => PrefixSymbol::MinusN,
    }
}

impl PrefixSymbol {
    /// Canonical short text form.
    pub fn as_str(&self) -> (r: &'static str)
        ensures
            r@ == spec_sym_str(*self),
    {
        match self {
            Self::PlusOne => "+1",
            Self::One => "1",
            Self::MinusOne => "-1",
            Self::PlusZero => "+0",
            Self::Zero => "0",
            Self::MinusZero => "-0",
            Self::PlusN => "+n",
            Self::N => "n",
            Self::MinusN => "-n",
        }
    }

    /// Text form right-justified to width two, for gutter display.
    pub fn gutter_str(&self) -> (r: &'static str)
        ensures
            r@ == spec_gutter_str(*self),
    {
        match self {
            Self::PlusOne => "+1",
            Self::One => " 1",
            Self::MinusOne => "-1",
            Self::PlusZero => "+0",
            Self::Zero => " 0",
            Self::MinusZero => "-0",
            Self::PlusN => "+n",
            Self::N => " n",
            Self::MinusN => "-n",
        }
    }

    /// 4-bit encoding, in `[0, 8]`.
    pub fn to_bits(&self) -> (r: u8)
        ensures
            r == spec_to_bits(*self),
            r <= 8,
    {
        match self {
            Self::PlusOne => 0,
            Self::One => 1,
            Self::MinusOne => 2,
            Self::PlusZero => 3,
            Self::Zero => 4,
            Self::MinusZero => 5,
            Self::PlusN => 6,
            Self::N => 7,
            Self::MinusN => 8,
        }
    }

    /// Decode from the 4-bit encoding; codes above 7 decode to `MinusN`.
    pub fn from_bits(bits: u8) -> (r: Self)
        ensures
            r == spec_from_bits(bits),
    {
        match bits {
            0 => Self::PlusOne,
            1 => Self::One,
            2 => Self::MinusOne,
            3 => Self::PlusZero,
            4 => Self::Zero,
            5 => Self::MinusZero,
            6 => Self::PlusN,
            7 => Self::N,
            _ => Self::MinusN,
        }
    }

    /// 3-axis coordinate for spatial addressing.
    pub fn to_3d(&self) -> (r: (i8, i8, i8))
        ensures
            r == spec_to_3d(*self),
    {
        match self {
            Self::PlusOne => (1, 1, 0),
            Self::One => (0, 1, 0),
            Self::MinusOne => (-1, 1, 0),
            Self::PlusZero => (1, 0, 0),
            Self::Zero => (0, 0, 0),
            Self::MinusZero => (-1, 0, 0),
            Self::PlusN => (1, -1, 0),
            Self::N => (0, -1, 0),
            Self::MinusN => (-1, -1, 0),
        }
    }
}

impl Category {
    /// Canonical name of the category.
    pub fn as_str(&self) -> (r: &'static str)
        ensures
            r@ == spec_cat_str(*self),
    {
        match self {
            Self::Declaration => "declaration",
            Self::Logic => "logic",
            Self::IO => "io",
            Self::Assignment => "assignment",
            Self::Neutral => "neutral",
            Self::Comment => "comment",
            Self::Modifier => "modifier",
            Self::Import => "import",
            Self::Unknown => "unknown",
        }
    }

    /// The canonical symbol of the category.
    pub fn symbol(&self) -> (r: PrefixSymbol)
        ensures
            r == spec_cat_symbol(*self),
    {
        match self {
            Self::Declaration => PrefixSymbol::PlusOne,
            Self::Logic => PrefixSymbol::One,
            Self::IO => PrefixSymbol::MinusOne,
            Self::Assignment => PrefixSymbol::PlusZero,
            Self::Neutral => PrefixSymbol::Zero,
            Self::Comment => PrefixSymbol::MinusZero,
            Self::Modifier => PrefixSymbol::PlusN,
            Self::Import => PrefixSymbol::N,
            Self::Unknown => PrefixSymbol::MinusN,
        }
    }
}

/// One line's classification record: symbol text, category name, 4-bit code,
/// 3-axis coordinate, and the 1-based line number.
pub struct ClassifyResult {
    pub symbol: String,
    pub category: String,
    pub bits: u8,
    pub coords: (i8, i8, i8),
    pub line_num: usize,
}

/// A record is exactly the one that classification to category `c` of the line
/// numbered `n` produces.
pub open spec fn result_matches(r: ClassifyResult, c: Category, n: int) -> bool {
    &&& r.symbol@ == spec_sym_str(spec_cat_symbol(c))
    &&& r.category@ == spec_cat_str(c)
    &&& r.bits == spec_to_bits(spec_cat_symbol(c))
    &&& r.coords == spec_to_3d(spec_cat_symbol(c))
    &&& r.line_num == n
}

/// Build the record for category `c` of the line numbered `line_num`.
pub fn make_result(c: Category, line_num: usize) -> (r: ClassifyResult)
    ensures
        result_matches(r, c, line_num as int),
{
    let sym = c.symbol();
    ClassifyResult {
        symbol: sym.as_str().to_owned(),
        category: c.as_str().to_owned(),
        bits: sym.to_bits(),
        coords: sym.to_3d(),
        line_num,
    }
}

/// Law: decoding a code, re-encoding the symbol, and decoding again yields the
/// same symbol as decoding once; in particular the code-to-symbol mapping
/// round-trips on every code.
pub proof fn lemma_bits_round_trip(b: u8)
    ensures
        spec_from_bits(spec_to_bits(spec_from_bits(b))) == spec_from_bits(b),
{
}

/// Law: over codes in `[0, 8]`, encode and decode are mutual inverses.
pub proof fn lemma_bits_inverse(b: u8)
    requires
        b <= 8,
    ensures
        spec_to_bits(spec_from_bits(b)) == b,
{
}

/// Law: the nine 3-axis coordinates are pairwise distinct.
pub proof fn lemma_coords_distinct(a: PrefixSymbol, b: PrefixSymbol)
    requires
        a != b,
    ensures
        spec_to_3d(a) != spec_to_3d(b),
{
}

/// Law: the category-to-symbol mapping is injective; no two categories share
/// a canonical symbol.
pub proof fn lemma_cat_symbol_injective(a: Category, b: Category)
    requires
        a != b,
    ensures
        spec_cat_symbol(a) != spec_cat_symbol(b),
{
}

/// Law: distinct symbols have distinct short text forms.
pub proof fn lemma_sym_str_injective(a: PrefixSymbol, b: PrefixSymbol)
    requires
        a != b,
    ensures
        spec_sym_str(a) != spec_sym_str(b),
{
    reveal_strlit("+1");
    reveal_strlit("1");
    reveal_strlit("-1");
    reveal_strlit("+0");
    reveal_strlit("0");
    reveal_strlit("-0");
    reveal_strlit("+n");
    reveal_strlit("n");
    reveal_strlit("-n");
    assert("+1"@.len() == 2 && "+1"@[0] == '+' && "+1"@[1] == '1');
    assert("1"@.len() == 1 && "1"@[0] == '1');
    assert("-1"@.len() == 2 && "-1"@[0] == '-' && "-1"@[1] == '1');
    assert("+0"@.len() == 2 && "+0"@[0] == '+' && "+0"@[1] == '0');
    assert("0"@.len() == 1 && "0"@[0] == '0');
    assert("-0"@.len() == 2 && "-0"@[0] == '-' && "-0"@[1] == '0');
    assert("+n"@.len() == 2 && "+n"@[0] == '+' && "+n"@[1] == 'n');
    assert("n"@.len() == 1 && "n"@[0] == 'n');
    assert("-n"@.len() == 2 && "-n"@[0] == '-' && "-n"@[1] == 'n');
}

/// Law: distinct categories have canonical symbols with distinct text forms.
pub proof fn lemma_cat_symbol_str_injective(a: Category, b: Category)
    requires
        a != b,
    ensures
        spec_sym_str(spec_cat_symbol(a)) != spec_sym_str(spec_cat_symbol(b)),
{
    lemma_cat_symbol_injective(a, b);
    lemma_sym_str_injective(spec_cat_symbol(a), spec_cat_symbol(b));
}

/// Law: distinct categories have distinct canonical names.
pub proof fn lemma_cat_str_injective(a: Category, b: Category)
    requires
        a != b,
    ensures
        spec_cat_str(a) != spec_cat_str(b),
{
    reveal_strlit("declaration");
    reveal_strlit("logic");
    reveal_strlit("io");
    reveal_strlit("assignment");
    reveal_strlit("neutral");
    reveal_strlit("comment");
    reveal_strlit("modifier");
    reveal_strlit("import");
    reveal_strlit("unknown");
    assert("declaration"@.len() == 11);
    assert("logic"@.len() == 5);
    assert("io"@.len() == 2);
    assert("assignment"@.len() == 10);
    assert("neutral"@.len() == 7);
    assert("comment"@.len() == 7);
    assert("modifier"@.len() == 8);
    assert("import"@.len() == 6);
    assert("unknown"@.len() == 7);
    assert("neutral"@[0] == 'n');
    assert("comment"@[0] == 'c');
    assert("unknown"@[0] == 'u');
}

} // verus!
