use mezzanine::display::{block_dimensions, pack_blocks_horizontally, pack_blocks_vertically, visualen};

#[test]
fn concerning_text_block_dimensions() {
    let (height, width) = block_dimensions("foo\nbarr\nquux\n");
    assert_eq!(3, height);
    assert_eq!(4, width);
}

#[test]
fn concerning_verical_packing() {
    let upper = "XX\nXX\n";
    let lower = "XXXXX\nXXXXX\n";
    let expected_packing = " XX  \n XX  \nXXXXX\nXXXXX\n";
    println!("expected_packing:\n{}", expected_packing);
    println!("actual packing:\n{}", pack_blocks_vertically(upper, lower));
    assert_eq!(expected_packing, pack_blocks_vertically(upper, lower));
}

#[test]
fn concerning_horizontal_packing() {
    let left = "XXX\nXXX\n";
    let right = "XX\nXX\nXX\nXX\n";
    let expected_packing = "   XX\nXXXXX\nXXXXX\n   XX\n";
    println!("expected_packing:\n{}", expected_packing);
    println!("actual packing:\n{}", pack_blocks_horizontally(left, right));
    assert_eq!(expected_packing, pack_blocks_horizontally(left, right));
}

#[test]
fn concerning_the_length_of_strings_containing_control_codes() {
    let codetext = format!("{}", ansi_term::Colour::Red.paint("control code"));
    println!("colored string __repr__esentation: {:?}", &codetext);
    println!("colored string char-acterization: {:?}", &codetext.chars().collect::<Vec<_>>());
    assert_eq!(12, visualen(&codetext));
}

#[test]
fn dimensions_of_an_empty_block() {
    assert_eq!(block_dimensions(""), (1, 0));
    assert_eq!(block_dimensions("  \n \t"), (1, 0));
}

#[test]
fn vertical_packing_puts_the_odd_space_on_the_right() {
    assert_eq!(pack_blocks_vertically("X", "XXXX"), " X  \nXXXX\n");
    assert_eq!(pack_blocks_vertically("", "XX"), "  \nXX\n");
}

#[test]
fn horizontal_packing_puts_the_odd_row_below() {
    assert_eq!(pack_blocks_horizontally("A\nB", "C"), "AC\nB \n");
    assert_eq!(pack_blocks_horizontally("", "XX"), "XX\n");
}
