use timecards::column::{column_letters, from_column_letter, letters_value_checked, to_column_letter};

const ASCII_LETTERS: &str = "ABCDEFGHIJKLMNOPQRSTUVWXYZ";

#[test]
fn it_converts_to_columns() {
    let mut index = 0;
    for letter in ASCII_LETTERS.chars() {
        assert_eq!(to_column_letter(index), letter.to_string());
        index += 1;
    }

    assert_eq!(to_column_letter(25 + 1), "AA");
    assert_eq!(to_column_letter(26 * 2 + 24), "BY");
}

#[test]
fn it_converts_from_columns() {
    assert_eq!(from_column_letter("AA".to_string()), 25 + 1);
    assert_eq!(from_column_letter("BY".to_string()), 26 * 2 + 24);
}

#[test]
fn column_names_round_trip() {
    for i in 0..2000 {
        assert_eq!(from_column_letter(to_column_letter(i)), i);
    }
}

#[test]
fn column_name_literals() {
    assert_eq!(to_column_letter(0), "A");
    assert_eq!(to_column_letter(25), "Z");
    assert_eq!(to_column_letter(26), "AA");
    assert_eq!(to_column_letter(51), "AZ");
    assert_eq!(to_column_letter(76), "BY");
    assert_eq!(to_column_letter(701), "ZZ");
    assert_eq!(to_column_letter(702), "AAA");
    assert_eq!(to_column_letter(-3), "");
    assert_eq!(column_letters(27), "AB");
    assert_eq!(column_letters(16383), "XFD");
}

#[test]
fn column_decoding_skips_other_characters() {
    assert_eq!(from_column_letter("a-B y!".to_string()), 1);
    assert_eq!(from_column_letter("".to_string()), -1);
    assert_eq!(from_column_letter("XFD".to_string()), 16383);
}

#[test]
fn column_value_checked_bounds() {
    assert_eq!(letters_value_checked("FXSHRXW"), Some(2147483647));
    assert_eq!(letters_value_checked("FXSHRXX"), None);
    assert_eq!(letters_value_checked("1"), Some(0));
}
