use frost::{
    find_next_slash, find_next_space, geometry_directive, geometry_fields, material_directive,
    material_fields, material_name, numeric_fields, parse_corner, parse_decimal, parse_face,
    parse_index, same_bytes, scan_index, Corner, GeometryDirective, LoadError, MaterialDirective,
    SourceLine,
};

#[test]
fn find_next_space_skips_leading_spaces() {
    assert_eq!(find_next_space(2, b"v   1.5 2"), (4, 7));
    assert_eq!(find_next_space(7, b"v   1.5 2"), (8, 9));
}

#[test]
fn find_next_space_at_a_word_starts_there() {
    assert_eq!(find_next_space(0, b"abc def"), (0, 3));
    assert_eq!(find_next_space(1, b"abc def"), (1, 3));
}

#[test]
fn find_next_space_gives_an_empty_word_at_the_end() {
    assert_eq!(find_next_space(3, b"Kd "), (3, 3));
    assert_eq!(find_next_space(2, b"Kd   "), (5, 5));
    assert_eq!(find_next_space(0, b""), (0, 0));
}

#[test]
fn find_next_space_past_the_end_stays() {
    assert_eq!(find_next_space(3, b"vn"), (3, 3));
    assert_eq!(find_next_space(usize::MAX, b"vn"), (usize::MAX, usize::MAX));
}

#[test]
fn find_next_space_takes_a_tab_for_a_letter() {
    assert_eq!(find_next_space(0, b"a\tb c"), (0, 3));
}

#[test]
fn find_next_slash_steps_over_one_slash() {
    assert_eq!(find_next_slash(3, b"f 1/22/333 4"), (4, 6));
    assert_eq!(find_next_slash(6, b"f 1/22/333 4"), (7, 10));
}

#[test]
fn find_next_slash_without_a_slash_starts_at_once() {
    assert_eq!(find_next_slash(2, b"f 12 3"), (2, 4));
}

#[test]
fn find_next_slash_gives_an_empty_index() {
    assert_eq!(find_next_slash(3, b"f 1//2"), (4, 4));
    assert_eq!(find_next_slash(4, b"f 1//2"), (5, 6));
    assert_eq!(find_next_slash(3, b"f 1 2"), (3, 3));
    assert_eq!(find_next_slash(3, b"f 1"), (3, 3));
    assert_eq!(find_next_slash(3, b"f 1/"), (4, 4));
    assert_eq!(find_next_slash(9, b"f 1"), (9, 9));
}

#[test]
fn scan_index_stops_at_slash_space_and_end() {
    assert_eq!(scan_index(2, b"f 12/3"), 4);
    assert_eq!(scan_index(2, b"f 12 3"), 4);
    assert_eq!(scan_index(5, b"f 12 3"), 6);
    assert_eq!(scan_index(4, b"f 12/3"), 4);
    assert_eq!(scan_index(7, b"f 12/3"), 7);
}

#[test]
fn numeric_fields_finds_three_words() {
    assert_eq!(numeric_fields(b"v 1.0 -2.5 3e2", 2), [(2, 5), (6, 10), (11, 14)]);
    assert_eq!(numeric_fields(b"vn  0 0   1  ", 3), [(4, 5), (6, 7), (10, 11)]);
}

#[test]
fn numeric_fields_of_a_short_line_are_empty() {
    assert_eq!(numeric_fields(b"v 1 2", 2), [(2, 3), (4, 5), (5, 5)]);
    assert_eq!(numeric_fields(b"vn", 3), [(2, 2), (2, 2), (2, 2)]);
    assert_eq!(numeric_fields(b"Kd ", 3), [(3, 3), (3, 3), (3, 3)]);
}

#[test]
fn material_directives() {
    assert_eq!(material_directive(b"newmtl red"), MaterialDirective::Declare);
    assert_eq!(material_directive(b"newmtl "), MaterialDirective::Declare);
    assert_eq!(material_directive(b"newmtl"), MaterialDirective::Other);
    assert_eq!(material_directive(b"Kd 1 0 0"), MaterialDirective::Diffuse);
    assert_eq!(material_directive(b"Kd "), MaterialDirective::Diffuse);
    assert_eq!(material_directive(b"Kd"), MaterialDirective::Other);
    assert_eq!(material_directive(b"Ka 1 0 0"), MaterialDirective::Other);
    assert_eq!(material_directive(b"# newmtl x"), MaterialDirective::Other);
    assert_eq!(material_directive(b""), MaterialDirective::Other);
}

#[test]
fn geometry_directives() {
    assert_eq!(geometry_directive(b"v 1 2 3"), GeometryDirective::Position);
    assert_eq!(geometry_directive(b"v "), GeometryDirective::Position);
    assert_eq!(geometry_directive(b"vn 0 0 1"), GeometryDirective::Normal);
    assert_eq!(geometry_directive(b"vn"), GeometryDirective::Normal);
    assert_eq!(geometry_directive(b"vt 0 1"), GeometryDirective::Other);
    assert_eq!(geometry_directive(b"usemtl red"), GeometryDirective::UseMaterial);
    assert_eq!(geometry_directive(b"usemtl"), GeometryDirective::Other);
    assert_eq!(geometry_directive(b"f 1 2 3"), GeometryDirective::Face);
    assert_eq!(geometry_directive(b"f"), GeometryDirective::Other);
    assert_eq!(geometry_directive(b"v"), GeometryDirective::Other);
    assert_eq!(geometry_directive(b""), GeometryDirective::Other);
    assert_eq!(geometry_directive(b"s off"), GeometryDirective::Other);
    assert_eq!(geometry_directive(b"# f 1 2 3"), GeometryDirective::Other);
}

#[test]
fn fields_are_found_on_numeric_lines_only() {
    assert_eq!(material_fields(b"Kd 0.5 0.25 1"), Some([(3, 6), (7, 11), (12, 13)]));
    assert_eq!(material_fields(b"newmtl 1 2 3"), None);
    assert_eq!(material_fields(b"Ns 1 2 3"), None);
    assert_eq!(geometry_fields(b"v 1 2 3"), Some([(2, 3), (4, 5), (6, 7)]));
    assert_eq!(geometry_fields(b"vn 1 2 3"), Some([(3, 4), (5, 6), (7, 8)]));
    assert_eq!(geometry_fields(b"f 1 2 3"), None);
    assert_eq!(geometry_fields(b"usemtl m"), None);
}

#[test]
fn the_byte_behind_the_directive_is_not_looked_at() {
    assert_eq!(material_fields(b"Kdx1 2 3"), Some([(3, 4), (5, 6), (7, 8)]));
    assert_eq!(geometry_fields(b"vnx1 2 3"), Some([(3, 4), (5, 6), (7, 8)]));
    assert_eq!(material_name(b"newmtlxred"), b"red".to_vec());
}

#[test]
fn material_name_takes_the_rest_of_the_line() {
    assert_eq!(material_name(b"newmtl red"), b"red".to_vec());
    assert_eq!(material_name(b"usemtl dark red "), b"dark red ".to_vec());
    assert_eq!(material_name(b"newmtl "), Vec::<u8>::new());
    assert_eq!(material_name(b"newm"), Vec::<u8>::new());
}

#[test]
fn same_bytes_compares_contents() {
    assert!(same_bytes(b"red", b"red"));
    assert!(same_bytes(b"", b""));
    assert!(!same_bytes(b"red", b"rex"));
    assert!(!same_bytes(b"red", b"re"));
    assert!(!same_bytes(b"", b"r"));
}

#[test]
fn parse_decimal_reads_digits() {
    assert_eq!(parse_decimal(b"0"), Some(0));
    assert_eq!(parse_decimal(b"7"), Some(7));
    assert_eq!(parse_decimal(b"1234"), Some(1234));
    assert_eq!(parse_decimal(b"007"), Some(7));
    assert_eq!(parse_decimal(b"+12"), Some(12));
}

#[test]
fn parse_decimal_refuses_what_is_no_number() {
    assert_eq!(parse_decimal(b""), None);
    assert_eq!(parse_decimal(b"+"), None);
    assert_eq!(parse_decimal(b"-1"), None);
    assert_eq!(parse_decimal(b"++1"), None);
    assert_eq!(parse_decimal(b"1+"), None);
    assert_eq!(parse_decimal(b"12a"), None);
    assert_eq!(parse_decimal(b"a12"), None);
    assert_eq!(parse_decimal(b"1.0"), None);
    assert_eq!(parse_decimal(b"1_0"), None);
    assert_eq!(parse_decimal(b" 1"), None);
}

#[test]
fn parse_decimal_holds_the_largest_number() {
    let largest = usize::MAX.to_string();
    assert_eq!(parse_decimal(largest.as_bytes()), Some(usize::MAX));
    let too_large = format!("{}0", usize::MAX);
    assert_eq!(parse_decimal(too_large.as_bytes()), None);
    let one_more = format!("{}", usize::MAX as u128 + 1);
    assert_eq!(parse_decimal(one_more.as_bytes()), None);
    assert_eq!(parse_decimal(b"99999999999999999999999999999999999999"), None);
}

#[test]
fn parse_decimal_agrees_with_the_standard_parser() {
    let tokens: [&str; 12] =
        ["", "0", "1", "42", "+42", "-42", "+", "4 2", "0042", "18446744073709551615",
         "18446744073709551616", "x"];
    for token in tokens {
        assert_eq!(parse_decimal(token.as_bytes()), token.parse::<usize>().ok(), "{:?}", token);
    }
}

#[test]
fn parse_index_counts_from_one() {
    assert_eq!(parse_index(b"1"), Ok(0));
    assert_eq!(parse_index(b"2"), Ok(1));
    assert_eq!(parse_index(b"100"), Ok(99));
    assert_eq!(parse_index(b"+3"), Ok(2));
}

#[test]
fn parse_index_of_an_empty_field_is_zero() {
    assert_eq!(parse_index(b""), Ok(0));
}

#[test]
fn parse_index_refuses_zero_as_out_of_range() {
    assert_eq!(parse_index(b"0"), Err(LoadError::IndexOutOfRange));
    assert_eq!(parse_index(b"000"), Err(LoadError::IndexOutOfRange));
}

#[test]
fn parse_index_refuses_what_is_no_number() {
    assert_eq!(parse_index(b"-1"), Err(LoadError::Parse));
    assert_eq!(parse_index(b"x"), Err(LoadError::Parse));
    assert_eq!(parse_index(b"1.5"), Err(LoadError::Parse));
    assert_eq!(parse_index(b"99999999999999999999999999"), Err(LoadError::Parse));
}

#[test]
fn parse_corner_reads_all_four_forms() {
    assert_eq!(parse_corner(2, b"f 5 6"), Ok((Corner { v: 4, vt: 0, vn: 0 }, 3)));
    assert_eq!(parse_corner(2, b"f 5/6 7"), Ok((Corner { v: 4, vt: 5, vn: 0 }, 5)));
    assert_eq!(parse_corner(2, b"f 5//7 8"), Ok((Corner { v: 4, vt: 0, vn: 6 }, 6)));
    assert_eq!(parse_corner(2, b"f 5/6/7 8"), Ok((Corner { v: 4, vt: 5, vn: 6 }, 7)));
}

#[test]
fn parse_corner_reads_a_corner_at_the_end_of_the_line() {
    assert_eq!(parse_corner(2, b"f 5"), Ok((Corner { v: 4, vt: 0, vn: 0 }, 3)));
    assert_eq!(parse_corner(2, b"f 5/6"), Ok((Corner { v: 4, vt: 5, vn: 0 }, 5)));
    assert_eq!(parse_corner(2, b"f 5/6/7"), Ok((Corner { v: 4, vt: 5, vn: 6 }, 7)));
    assert_eq!(parse_corner(2, b"f 5//"), Ok((Corner { v: 4, vt: 0, vn: 0 }, 5)));
}

#[test]
fn parse_corner_takes_a_leading_slash_for_an_empty_first_field() {
    assert_eq!(parse_corner(2, b"f /2/3"), Ok((Corner { v: 0, vt: 1, vn: 2 }, 6)));
}

#[test]
fn parse_corner_stops_after_three_fields() {
    assert_eq!(parse_corner(2, b"f 1/2/3/4"), Ok((Corner { v: 0, vt: 1, vn: 2 }, 7)));
}

#[test]
fn parse_corner_reports_the_first_bad_field() {
    assert_eq!(parse_corner(2, b"f x/0/1"), Err(LoadError::Parse));
    assert_eq!(parse_corner(2, b"f 0/x/1"), Err(LoadError::IndexOutOfRange));
    assert_eq!(parse_corner(2, b"f 1/2/x"), Err(LoadError::Parse));
    assert_eq!(parse_corner(2, b"f 1/2/0"), Err(LoadError::IndexOutOfRange));
}

#[test]
fn parse_corner_past_the_end_is_all_empty() {
    assert_eq!(parse_corner(9, b"f 1"), Ok((Corner { v: 0, vt: 0, vn: 0 }, 9)));
}

#[test]
fn parse_face_reads_every_corner() {
    assert_eq!(
        parse_face(b"f 1 2 3"),
        Ok(vec![
            Corner { v: 0, vt: 0, vn: 0 },
            Corner { v: 1, vt: 0, vn: 0 },
            Corner { v: 2, vt: 0, vn: 0 },
        ])
    );
    assert_eq!(
        parse_face(b"f 1/4/7 2/5/8   3/6/9 "),
        Ok(vec![
            Corner { v: 0, vt: 3, vn: 6 },
            Corner { v: 1, vt: 4, vn: 7 },
            Corner { v: 2, vt: 5, vn: 8 },
        ])
    );
}

#[test]
fn parse_face_resolves_omitted_fields_to_zero() {
    assert_eq!(
        parse_face(b"f 1// 2// 3//"),
        Ok(vec![
            Corner { v: 0, vt: 0, vn: 0 },
            Corner { v: 1, vt: 0, vn: 0 },
            Corner { v: 2, vt: 0, vn: 0 },
        ])
    );
}

#[test]
fn parse_face_of_a_line_without_corners_is_empty() {
    assert_eq!(parse_face(b"f "), Ok(vec![]));
    assert_eq!(parse_face(b"f    "), Ok(vec![]));
    assert_eq!(parse_face(b"f"), Ok(vec![]));
    assert_eq!(parse_face(b""), Ok(vec![]));
}

#[test]
fn parse_face_takes_a_fourth_field_for_a_new_corner() {
    assert_eq!(
        parse_face(b"f 1/2/3/4"),
        Ok(vec![Corner { v: 0, vt: 1, vn: 2 }, Corner { v: 0, vt: 3, vn: 0 }])
    );
}

#[test]
fn parse_face_fails_on_the_first_bad_corner() {
    assert_eq!(parse_face(b"f 1 x 0"), Err(LoadError::Parse));
    assert_eq!(parse_face(b"f 1 0 x"), Err(LoadError::IndexOutOfRange));
    assert_eq!(parse_face(b"f 1 2 3.5"), Err(LoadError::Parse));
    assert_eq!(parse_face(b"f 1\t2 3"), Err(LoadError::Parse));
}

#[test]
fn a_cloned_line_is_the_same_line() {
    let line = SourceLine { text: b"v 1 2 3".to_vec(), values: Some([1, 2, 3]) };
    assert_eq!(line.clone(), line);
    let bare = SourceLine { text: Vec::new(), values: None };
    assert_eq!(bare.clone(), bare);
}
