use uvspeed_prefix_engine::Category;
use uvspeed_prefix_engine::PrefixSymbol;

#[test]
fn test_3d_coordinates() {
    // Verify all 9 symbols have unique 3D coords
    let symbols = [
        PrefixSymbol::PlusOne,
        PrefixSymbol::One,
        PrefixSymbol::MinusOne,
        PrefixSymbol::PlusZero,
        PrefixSymbol::Zero,
        PrefixSymbol::MinusZero,
        PrefixSymbol::PlusN,
        PrefixSymbol::N,
        PrefixSymbol::MinusN,
    ];
    let coords: Vec<_> = symbols.iter().map(|s| s.to_3d()).collect();
    for i in 0..coords.len() {
        for j in (i + 1)..coords.len() {
            assert_ne!(
                coords[i], coords[j],
                "Duplicate 3D coord: {:?} and {:?}",
                symbols[i], symbols[j]
            );
        }
    }
}

#[test]
fn test_bits_roundtrip() {
    for i in 0..=8u8 {
        let sym = PrefixSymbol::from_bits(i);
        assert_eq!(sym.to_bits(), i);
    }
}

#[test]
fn test_from_bits_out_of_range() {
    assert_eq!(PrefixSymbol::from_bits(9), PrefixSymbol::MinusN);
    assert_eq!(PrefixSymbol::from_bits(15), PrefixSymbol::MinusN);
    assert_eq!(PrefixSymbol::from_bits(255), PrefixSymbol::MinusN);
}

#[test]
fn test_symbol_text_forms() {
    assert_eq!(PrefixSymbol::PlusOne.as_str(), "+1");
    assert_eq!(PrefixSymbol::One.as_str(), "1");
    assert_eq!(PrefixSymbol::MinusOne.as_str(), "-1");
    assert_eq!(PrefixSymbol::PlusZero.as_str(), "+0");
    assert_eq!(PrefixSymbol::Zero.as_str(), "0");
    assert_eq!(PrefixSymbol::MinusZero.as_str(), "-0");
    assert_eq!(PrefixSymbol::PlusN.as_str(), "+n");
    assert_eq!(PrefixSymbol::N.as_str(), "n");
    assert_eq!(PrefixSymbol::MinusN.as_str(), "-n");
}

#[test]
fn test_category_symbols() {
    assert_eq!(Category::Declaration.symbol(), PrefixSymbol::PlusOne);
    assert_eq!(Category::Logic.symbol(), PrefixSymbol::One);
    assert_eq!(Category::IO.symbol(), PrefixSymbol::MinusOne);
    assert_eq!(Category::Assignment.symbol(), PrefixSymbol::PlusZero);
    assert_eq!(Category::Neutral.symbol(), PrefixSymbol::Zero);
    assert_eq!(Category::Comment.symbol(), PrefixSymbol::MinusZero);
    assert_eq!(Category::Modifier.symbol(), PrefixSymbol::PlusN);
    assert_eq!(Category::Import.symbol(), PrefixSymbol::N);
    assert_eq!(Category::Unknown.symbol(), PrefixSymbol::MinusN);
    assert_eq!(Category::Import.as_str(), "import");
    assert_eq!(Category::Unknown.as_str(), "unknown");
}
