use hyperlane_cli::{format_derive_content, sort_derive_content, sort_derive_in_line};

#[test]
fn traits_are_put_in_order() {
    assert_eq!(
        sort_derive_in_line("#[derive(Debug, Clone, PartialEq)]"),
        Some("#[derive(Clone, Debug, PartialEq)]".to_string())
    );
}

#[test]
fn order_is_by_lowercase_form() {
    assert_eq!(
        sort_derive_in_line("    #[derive(serde::Serialize, Debug, clap::Parser, Clone)]"),
        Some("    #[derive(clap::Parser, Clone, Debug, serde::Serialize)]".to_string())
    );
}

#[test]
fn spaces_are_set_right() {
    assert_eq!(
        sort_derive_in_line("#[derive (  Eq,PartialEq ,, Clone  )]"),
        Some("#[derive (Clone, Eq, PartialEq)]".to_string())
    );
}

#[test]
fn line_without_derive_is_none() {
    assert_eq!(sort_derive_in_line("pub struct Point;"), None);
    assert_eq!(sort_derive_in_line("#[derive()]"), None);
    assert_eq!(sort_derive_in_line("#[derive(Clone]"), None);
    assert_eq!(sort_derive_in_line(""), None);
}

#[test]
fn sorted_line_stays() {
    let line = "#[derive(Clone, Copy, Debug)] // keep";
    assert_eq!(sort_derive_in_line(line), Some(line.to_string()));
}

#[test]
fn only_the_first_attribute_is_read() {
    assert_eq!(
        sort_derive_in_line("#[derive(B, A)] #[derive(D, C)]"),
        Some("#[derive(A, B)] #[derive(D, C)]".to_string())
    );
}

#[test]
fn list_is_replaced_wherever_it_stands() {
    assert_eq!(
        sort_derive_in_line("#[derive(B, A)] // was B, A"),
        Some("#[derive(A, B)] // was A, B".to_string())
    );
}

#[test]
fn traits_with_the_same_lowercase_form_keep_their_order() {
    assert_eq!(sort_derive_content("x", "b, B, a, A"), "x");
    assert_eq!(sort_derive_content("b, B, a, A", "b, B, a, A"), "a, A, b, B");
    assert_eq!(sort_derive_content("B, b, A, a", "B, b, A, a"), "A, a, B, b");
}

#[test]
fn empty_list_stands_before_every_character() {
    assert_eq!(sort_derive_content("ab", ""), "ab");
    assert_eq!(sort_derive_content("a,b", ","), "ab");
}

#[test]
fn text_with_sorted_attributes_stays() {
    assert_eq!(format_derive_content("#[derive(Clone, Debug)]\nstruct A;\n"), None);
    assert_eq!(format_derive_content("fn main() {}\n"), None);
    assert_eq!(format_derive_content(""), None);
}

#[test]
fn text_has_its_attributes_put_in_order() {
    let content = "#[derive(Debug, Clone)]\nstruct A;\n    #[derive(Eq, PartialEq, Copy)]\nstruct B;";
    assert_eq!(
        format_derive_content(content),
        Some("#[derive(Clone, Debug)]\nstruct A;\n    #[derive(Copy, Eq, PartialEq)]\nstruct B;\n".to_string())
    );
}

#[test]
fn attribute_in_the_middle_of_a_line_stays() {
    assert_eq!(format_derive_content("// #[derive(B, A)]\nlet x = \"#[derive(B, A)]\";\n"), None);
}

#[test]
fn formatting_ends_every_line_with_a_line_feed() {
    assert_eq!(
        format_derive_content("#[derive(B, A)]\r\nstruct X;\r\n"),
        Some("#[derive(A, B)]\nstruct X;\n".to_string())
    );
}
