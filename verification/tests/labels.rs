use codelens_references::label::push_decimal;

#[test]
fn label_for_no_reference() {
    assert_eq!(codelens_references::label::format(0), "0 references");
}

#[test]
fn label_for_one_reference() {
    assert_eq!(codelens_references::label::format(1), "1 reference");
}

#[test]
fn label_for_two_references() {
    assert_eq!(codelens_references::label::format(2), "2 references");
}

#[test]
fn labels_for_larger_counts() {
    assert_eq!(codelens_references::label::format(9), "9 references");
    assert_eq!(codelens_references::label::format(10), "10 references");
    assert_eq!(codelens_references::label::format(11), "11 references");
    assert_eq!(codelens_references::label::format(100), "100 references");
    assert_eq!(codelens_references::label::format(101), "101 references");
    assert_eq!(codelens_references::label::format(12345), "12345 references");
    assert_eq!(
        codelens_references::label::format(usize::MAX),
        format!("{} references", usize::MAX)
    );
}

#[test]
fn labels_agree_with_the_decimal_numeral_of_the_count() {
    for count in 0..2000usize {
        let expected = if count == 1 {
            "1 reference".to_string()
        } else {
            format!("{} references", count)
        };
        assert_eq!(codelens_references::label::format(count), expected);
    }
}

#[test]
fn decimal_numeral_is_appended() {
    let mut out = String::from("n=");
    push_decimal(0, &mut out);
    assert_eq!(out, "n=0");
    push_decimal(7, &mut out);
    push_decimal(40, &mut out);
    push_decimal(1009, &mut out);
    assert_eq!(out, "n=07401009");
}
